//! Track namespaces and names.

use crate::text::{self, find_char};
use vstd::prelude::*;

verus! {

/// One field of a namespace, or a track's name: a string of bytes.
#[derive(Debug)]
pub struct TupleField {
    pub bytes: Vec<u8>,
}

/// A track namespace: a list of fields.
#[derive(Debug)]
pub struct Tuple {
    pub fields: Vec<TupleField>,
}

/// A track's namespace and name.
#[derive(Debug)]
pub struct FullTrackName {
    pub namespace: Tuple,
    pub name: TupleField,
}

/// What a [`FullTrackName`] stands for.
#[verifier::ext_equal]
pub struct TrackNameView {
    pub namespace: Seq<Seq<u8>>,
    pub name: Seq<u8>,
}

impl View for TupleField {
    type V = Seq<u8>;

    open spec fn view(&self) -> Seq<u8> {
        self.bytes@
    }
}

impl View for Tuple {
    type V = Seq<Seq<u8>>;

    open spec fn view(&self) -> Seq<Seq<u8>> {
        self.fields@.map_values(|field: TupleField| field@)
    }
}

impl View for FullTrackName {
    type V = TrackNameView;

    open spec fn view(&self) -> TrackNameView {
        TrackNameView { namespace: self.namespace@, name: self.name@ }
    }
}

/// Whether two byte strings are equal.
pub fn bytes_equal(a: &[u8], b: &[u8]) -> (equal: bool)
    ensures
        equal == (a@ == b@),
{
    if a.len() != b.len() {
        return false;
    }
    let mut i: usize = 0;
    while i < a.len()
        invariant
            i <= a.len(),
            a.len() == b.len(),
            forall|j: int| 0 <= j < i ==> a@[j] == b@[j],
        decreases a.len() - i,
    {
        if a[i] != b[i] {
            return false;
        }
        i = i + 1;
    }
    proof {
        assert(a@ =~= b@);
    }
    true
}

/// A copy of a byte string.
pub fn copy_bytes(bytes: &[u8]) -> (copy: Vec<u8>)
    ensures
        copy@ == bytes@,
{
    let mut copy: Vec<u8> = Vec::new();
    let mut i: usize = 0;
    while i < bytes.len()
        invariant
            i <= bytes.len(),
            copy@ == bytes@.take(i as int),
        decreases bytes.len() - i,
    {
        copy.push(bytes[i]);
        i = i + 1;
        proof {
            assert(bytes@.take(i as int) =~= bytes@.take(i - 1).push(bytes@[i - 1]));
        }
    }
    proof {
        assert(bytes@.take(i as int) =~= bytes@);
    }
    copy
}

impl TupleField {
    /// The field that holds the UTF-8 encoding of a string.
    pub fn from_utf8(text: &str) -> (field: TupleField)
        ensures
            field@ == vstd::utf8::encode_utf8(text@),
    {
        TupleField { bytes: copy_bytes(text.as_bytes()) }
    }

    pub fn as_bytes(&self) -> (bytes: &[u8])
        ensures
            bytes@ == self@,
    {
        self.bytes.as_slice()
    }
}

impl Clone for TupleField {
    fn clone(&self) -> (copy: Self)
        ensures
            copy@ == self@,
    {
        TupleField { bytes: copy_bytes(self.bytes.as_slice()) }
    }
}

/// The UTF-8 encodings of the pieces that are not empty.
pub open spec fn fields_of(pieces: Seq<Seq<char>>) -> Seq<Seq<u8>>
    decreases pieces.len(),
{
    if pieces.len() == 0 {
        Seq::empty()
    } else if pieces[0].len() == 0 {
        fields_of(pieces.drop_first())
    } else {
        seq![vstd::utf8::encode_utf8(pieces[0])] + fields_of(pieces.drop_first())
    }
}

impl Tuple {
    pub fn new(fields: Vec<TupleField>) -> (tuple: Tuple)
        ensures
            tuple.fields == fields,
    {
        Tuple { fields }
    }

    /// The namespace that a path with slashes between its fields stands for. A
    /// slash at the start or the end, or next to another one, adds no field.
    pub fn from_utf8_path(path: &str) -> (tuple: Tuple)
        ensures
            tuple@ == fields_of(text::pieces(path@, 0, '/')),
    {
        let mut tuple: Tuple = Tuple { fields: Vec::new() };
        let len: usize = path.unicode_len();
        let mut start: usize = 0;
        proof {
            assert(tuple@ + fields_of(text::pieces(path@, 0, '/')) =~= fields_of(
                text::pieces(path@, 0, '/'),
            ));
        }
        loop
            invariant
                start <= len,
                len == path@.len(),
                tuple@ + fields_of(text::pieces(path@, start as int, '/')) == fields_of(
                    text::pieces(path@, 0, '/'),
                ),
            decreases len - start,
        {
            let end: usize = find_char(path, start, '/');
            let ghost rest = text::pieces(path@, start as int, '/');
            let ghost before = tuple@;
            if end > start {
                let field: TupleField = TupleField::from_utf8(path.substring_char(start, end));
                tuple.fields.push(field);
                proof {
                    assert(tuple@ =~= before.push(field@));
                }
            }
            if end >= len {
                proof {
                    assert(fields_of(rest.drop_first()) =~= Seq::empty());
                    assert(tuple@ =~= before + fields_of(rest));
                }
                return tuple;
            }
            proof {
                let next = text::pieces(path@, end + 1, '/');
                assert(rest.drop_first() =~= next);
                assert(tuple@ + fields_of(next) =~= before + fields_of(rest));
            }
            start = end + 1;
        }
    }

    /// Whether this namespace is `prefix` or lies below it.
    pub fn starts_with(&self, prefix: &Tuple) -> (below: bool)
        ensures
            below == prefix@.is_prefix_of(self@),
    {
        if prefix.fields.len() > self.fields.len() {
            return false;
        }
        let mut i: usize = 0;
        while i < prefix.fields.len()
            invariant
                i <= prefix.fields.len() <= self.fields.len(),
                forall|j: int| 0 <= j < i ==> #[trigger] prefix@[j] == self@[j],
            decreases prefix.fields.len() - i,
        {
            if !bytes_equal(prefix.fields[i].as_bytes(), self.fields[i].as_bytes()) {
                proof {
                    assert(prefix@[i as int] != self@[i as int]);
                    assert(self@.subrange(0, prefix@.len() as int)[i as int] == self@[i as int]);
                }
                return false;
            }
            i = i + 1;
        }
        proof {
            assert(prefix@ =~= self@.subrange(0, prefix@.len() as int));
        }
        true
    }
}

impl Clone for Tuple {
    fn clone(&self) -> (copy: Self)
        ensures
            copy@ == self@,
    {
        let mut fields: Vec<TupleField> = Vec::new();
        let mut i: usize = 0;
        while i < self.fields.len()
            invariant
                i <= self.fields.len(),
                fields.len() == i,
                forall|j: int| 0 <= j < i ==> (#[trigger] fields@[j])@ == self.fields@[j]@,
            decreases self.fields.len() - i,
        {
            fields.push(self.fields[i].clone());
            i = i + 1;
        }
        let copy = Tuple { fields };
        proof {
            assert(copy@ =~= self@);
        }
        copy
    }
}

impl FullTrackName {
    pub fn new(namespace: Tuple, name: TupleField) -> (full: FullTrackName)
        ensures
            full.namespace == namespace,
            full.name == name,
    {
        FullTrackName { namespace, name }
    }

    /// Whether two full track names are the same.
    pub fn equals(&self, other: &FullTrackName) -> (equal: bool)
        ensures
            equal == (self@ == other@),
    {
        let same_length: bool = self.namespace.fields.len() == other.namespace.fields.len();
        let prefix: bool = self.namespace.starts_with(&other.namespace);
        let name: bool = bytes_equal(self.name.as_bytes(), other.name.as_bytes());
        proof {
            if same_length && prefix {
                assert(self@.namespace.subrange(0, other@.namespace.len() as int)
                    =~= self@.namespace);
            }
            if self@ == other@ {
                assert(self@.namespace.subrange(0, other@.namespace.len() as int)
                    =~= other@.namespace);
            }
        }
        same_length && prefix && name
    }
}

impl Clone for FullTrackName {
    fn clone(&self) -> (copy: Self)
        ensures
            copy@ == self@,
    {
        FullTrackName { namespace: self.namespace.clone(), name: self.name.clone() }
    }
}

/// What `String::from_utf8_lossy` makes of a byte string.
pub uninterp spec fn utf8_lossy(bytes: Seq<u8>) -> Seq<char>;

/// Calls `String::from_utf8_lossy`. The text depends on the bytes alone; bytes
/// that are valid UTF-8 give the text they encode.
#[verifier::external_body]
fn text_of_bytes(bytes: &[u8]) -> (text: String)
    ensures
        text@ == utf8_lossy(bytes@),
        vstd::utf8::valid_utf8(bytes@) ==> text@ == vstd::utf8::decode_utf8(bytes@),
{
    String::from_utf8_lossy(bytes).into_owned()
}

/// The fields of a namespace as text, each followed by a slash.
pub open spec fn namespace_text(fields: Seq<Seq<u8>>) -> Seq<char>
    decreases fields.len(),
{
    if fields.len() == 0 {
        Seq::empty()
    } else {
        namespace_text(fields.drop_last()) + utf8_lossy(fields.last()) + "/"@
    }
}

/// A track name as text, for event records: the fields of the namespace and
/// the name, separated by slashes. An empty namespace still gives its slash.
pub open spec fn track_name_text(name: TrackNameView) -> Seq<char> {
    if name.namespace.len() == 0 {
        "/"@ + utf8_lossy(name.name)
    } else {
        namespace_text(name.namespace) + utf8_lossy(name.name)
    }
}

/// Renders a full track name as a readable string for event records.
pub fn track_name_string(name: &FullTrackName) -> (text: String)
    ensures
        text@ == track_name_text(name@),
{
    let mut text: String = String::new();
    let ghost fields = name@.namespace;
    let mut i: usize = 0;
    while i < name.namespace.fields.len()
        invariant
            i <= name.namespace.fields.len(),
            fields == name.namespace@,
            text@ == namespace_text(fields.take(i as int)),
        decreases name.namespace.fields.len() - i,
    {
        let field: String = text_of_bytes(name.namespace.fields[i].as_bytes());
        text.append(field.as_str());
        text.append("/");
        i = i + 1;
        proof {
            assert(fields.take(i as int).drop_last() =~= fields.take(i - 1));
            assert(fields.take(i as int).last() == name.namespace.fields@[i - 1]@);
        }
    }
    proof {
        assert(fields.take(i as int) =~= fields);
    }
    if name.namespace.fields.len() == 0 {
        text.append("/");
        proof {
            assert(text@ =~= "/"@);
        }
    }
    let last: String = text_of_bytes(name.name.as_bytes());
    text.append(last.as_str());
    text
}

/// A path's fields are those of its pieces one after the other. An empty piece gives no
/// field, and any other its UTF-8 bytes.
pub proof fn law_fields_come_piece_by_piece(
    first: Seq<Seq<char>>,
    second: Seq<Seq<char>>,
    piece: Seq<char>,
)
    ensures
        fields_of(first + second) == fields_of(first) + fields_of(second),
        piece.len() == 0 ==> fields_of(seq![piece]).len() == 0,
        piece.len() > 0 ==> fields_of(seq![piece]) == seq![vstd::utf8::encode_utf8(piece)],
        fields_of(Seq::<Seq<char>>::empty()).len() == 0,
    decreases first.len(),
{
    reveal_with_fuel(fields_of, 2);
    assert(seq![piece].drop_first() =~= Seq::<Seq<char>>::empty());
    if first.len() == 0 {
        assert(first + second =~= second);
        assert(fields_of(first) + fields_of(second) =~= fields_of(second));
    } else {
        law_fields_come_piece_by_piece(first.drop_first(), second, piece);
        assert((first + second).drop_first() =~= first.drop_first() + second);
        assert(fields_of(first + second) =~= fields_of(first) + fields_of(second));
    }
}

/// A namespace's text is that of its fields one after the other, a slash behind each.
pub proof fn law_namespace_text_goes_field_by_field(
    first: Seq<Seq<u8>>,
    second: Seq<Seq<u8>>,
    field: Seq<u8>,
)
    ensures
        namespace_text(first + second) == namespace_text(first) + namespace_text(second),
        namespace_text(seq![field]) == utf8_lossy(field).push('/'),
        namespace_text(Seq::<Seq<u8>>::empty()).len() == 0,
    decreases second.len(),
{
    reveal_strlit("/");
    reveal_with_fuel(namespace_text, 2);
    assert(seq![field].drop_last() =~= Seq::<Seq<u8>>::empty());
    assert(namespace_text(seq![field]) =~= utf8_lossy(field).push('/'));
    if second.len() == 0 {
        assert(first + second =~= first);
        assert(namespace_text(first) + namespace_text(second) =~= namespace_text(first));
    } else {
        law_namespace_text_goes_field_by_field(first, second.drop_last(), field);
        assert((first + second).drop_last() =~= first + second.drop_last());
        assert(namespace_text(first + second) =~= namespace_text(first) + namespace_text(second));
    }
}

/// A track's text ends in its name, which a slash precedes. What stands before is the
/// namespace's text, and the slash alone where there is no namespace.
pub proof fn law_track_text_ends_in_the_name(track: TrackNameView)
    ensures
        ({
            let text = track_name_text(track);
            let name = utf8_lossy(track.name);
            let before = text.take(text.len() - name.len());
            &&& text.len() > name.len()
            &&& text.skip(text.len() - name.len()) == name
            &&& before.last() == '/'
            &&& track.namespace.len() == 0 ==> before.len() == 1
            &&& track.namespace.len() > 0 ==> before == namespace_text(track.namespace)
        }),
{
    reveal_strlit("/");
    let text = track_name_text(track);
    let name = utf8_lossy(track.name);
    assert(text.skip(text.len() - name.len()) =~= name);
    if track.namespace.len() > 0 {
        assert(text.take(text.len() - name.len()) =~= namespace_text(track.namespace));
    }
}

} // verus!
