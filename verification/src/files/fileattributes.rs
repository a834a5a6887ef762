//! The attributes of a file.
//!
//! The `attr` of a file is a short text in which each letter names one
//! attribute: `x` an executable, `h` a hidden file, `p` padding, `l` a
//! symbolic link. Letters count in either case and in any order, and a
//! letter that stands twice counts once. What is kept is the set of
//! attributes, in the order of their letters.
//!
//! The set is held in an `ArrayVec` of `arrayvec`, and sorted and freed of
//! repetitions by `itertools`. Verus sees neither: `arrayvec_items` names
//! what an `ArrayVec` holds, and the contracts of the calls are assumed.

use crate::hexadecimal::ascii_lower;
use crate::hexadecimal::spec_ascii_lower;
use crate::hexadecimal::spec_lower;
use crate::text::ascii_to_string;
use crate::text::spec_ascii_chars;
use arrayvec::ArrayVec;
use itertools::Itertools;
use vstd::prelude::*;
use vstd::string::StringSliceAdditionalSpecFns;

verus! {

/// One attribute of a file.
#[derive(Debug, Clone, Copy, PartialEq, Eq, Structural)]
pub enum FileAttribute {
    Executable,
    Hidden,
    Padding,
    Symlink,
}

/// Why a text names no attributes.
#[derive(Debug, Clone, Copy, PartialEq, Eq, Structural)]
pub enum AttributeError {
    /// A byte that names no attribute; holds the byte after lower-casing.
    UnknownVariant(u8),
    /// A text that should be one letter and has another length.
    InvalidLength(usize),
}

/// The attribute that a lower-case letter names.
pub open spec fn spec_attribute_of(letter: u8) -> Option<FileAttribute> {
    if letter == 0x78 {
        Some(FileAttribute::Executable)
    } else if letter == 0x68 {
        Some(FileAttribute::Hidden)
    } else if letter == 0x70 {
        Some(FileAttribute::Padding)
    } else if letter == 0x6c {
        Some(FileAttribute::Symlink)
    } else {
        None
    }
}

/// The lower-case letter of an attribute.
pub open spec fn spec_letter_of(attribute: FileAttribute) -> u8 {
    match attribute {
        FileAttribute::Executable => 0x78,
        FileAttribute::Hidden => 0x68,
        FileAttribute::Padding => 0x70,
        FileAttribute::Symlink => 0x6c,
    }
}

impl FileAttribute {
    /// The attribute that a letter of either case names.
    pub fn try_from(value: u8) -> (r: Result<Self, AttributeError>)
        ensures
            match spec_attribute_of(spec_ascii_lower(value)) {
                Some(attribute) => r == Ok::<Self, AttributeError>(attribute),
                None => r == Err::<Self, AttributeError>(
                    AttributeError::UnknownVariant(spec_ascii_lower(value)),
                ),
            },
    {
        let letter: u8 = ascii_lower(value);
        if letter == 0x78 {
            Ok(FileAttribute::Executable)
        } else if letter == 0x68 {
            Ok(FileAttribute::Hidden)
        } else if letter == 0x70 {
            Ok(FileAttribute::Padding)
        } else if letter == 0x6c {
            Ok(FileAttribute::Symlink)
        } else {
            Err(AttributeError::UnknownVariant(letter))
        }
    }

    /// The attribute that a text of one letter names.
    pub fn try_from_str(value: &str) -> (r: Result<Self, AttributeError>)
        ensures
            value.spec_bytes().len() != 1 ==> r == Err::<Self, AttributeError>(
                AttributeError::InvalidLength(value.spec_bytes().len() as usize),
            ),
            value.spec_bytes().len() == 1 ==> match spec_attribute_of(
                spec_ascii_lower(value.spec_bytes()[0]),
            ) {
                Some(attribute) => r == Ok::<Self, AttributeError>(attribute),
                None => r == Err::<Self, AttributeError>(
                    AttributeError::UnknownVariant(spec_ascii_lower(value.spec_bytes()[0])),
                ),
            },
    {
        let bytes = value.as_bytes();
        if bytes.len() != 1 {
            return Err(AttributeError::InvalidLength(bytes.len()));
        }
        Self::try_from(bytes[0])
    }

    /// The lower-case letter of the attribute.
    pub fn letter(self) -> (r: u8)
        ensures
            r == spec_letter_of(self),
            spec_attribute_of(r) == Some(self),
            r < 128,
    {
        match self {
            FileAttribute::Executable => 0x78,
            FileAttribute::Hidden => 0x68,
            FileAttribute::Padding => 0x70,
            FileAttribute::Symlink => 0x6c,
        }
    }

    /// The lower-case letter of the attribute, as text.
    pub fn as_str(self) -> (r: &'static str)
        ensures
            r@ == match self {
                FileAttribute::Executable => "x"@,
                FileAttribute::Hidden => "h"@,
                FileAttribute::Padding => "p"@,
                FileAttribute::Symlink => "l"@,
            },
    {
        match self {
            FileAttribute::Executable => "x",
            FileAttribute::Hidden => "h",
            FileAttribute::Padding => "p",
            FileAttribute::Symlink => "l",
        }
    }
}

/// `arrayvec::ArrayVec`, of which Verus sees nothing but that it is a type.
#[verifier::external_type_specification]
#[verifier::external_body]
#[verifier::reject_recursive_types(T)]
pub struct ExArrayVec<T, const CAP: usize>(arrayvec::ArrayVec<T, CAP>);

/// What an `ArrayVec` of letters holds, first to last.
pub uninterp spec fn arrayvec_items(v: ArrayVec<u8, 4>) -> Seq<u8>;

/// `ArrayVec::new`. Assumed: the new vector holds nothing.
#[verifier::external_body]
fn arrayvec_new() -> (r: ArrayVec<u8, 4>)
    ensures
        arrayvec_items(r) == Seq::<u8>::empty(),
{
    ArrayVec::new()
}

/// `ArrayVec::push`, which panics on a full vector: so the vector must hold
/// fewer than four letters. Assumed: the letter is added behind the others.
#[verifier::external_body]
fn arrayvec_push(v: &mut ArrayVec<u8, 4>, letter: u8)
    requires
        arrayvec_items(*old(v)).len() < 4,
    ensures
        arrayvec_items(*final(v)) == arrayvec_items(*old(v)).push(letter),
{
    v.push(letter)
}

/// `ArrayVec::as_slice`. Assumed: the slice is what the vector holds.
#[verifier::external_body]
fn arrayvec_as_slice(v: &ArrayVec<u8, 4>) -> (r: &[u8])
    ensures
        r@ == arrayvec_items(*v),
{
    v.as_slice()
}

/// Whether no byte of `s` is above a later one.
pub open spec fn spec_sorted(s: Seq<u8>) -> bool {
    forall|i: int, j: int| 0 <= i <= j < s.len() ==> s[i] <= s[j]
}

/// Whether every byte of `s` is below the next one.
pub open spec fn spec_ascending(s: Seq<u8>) -> bool {
    forall|i: int, j: int| 0 <= i < j < s.len() ==> s[i] < s[j]
}

/// `s` with every run of one byte cut down to the first of the run.
pub open spec fn spec_dedup(s: Seq<u8>) -> Seq<u8>
    decreases s.len(),
{
    if s.len() == 0 {
        s
    } else if s.len() >= 2 && s[s.len() - 2] == s.last() {
        spec_dedup(s.drop_last())
    } else {
        spec_dedup(s.drop_last()).push(s.last())
    }
}

/// `Itertools::sorted`, collected again. Assumed, as its documentation says:
/// the result holds the same bytes, each as often, in ascending order.
#[verifier::external_body]
fn sorted_bytes(bytes: Vec<u8>) -> (r: Vec<u8>)
    ensures
        r@.to_multiset() == bytes@.to_multiset(),
        spec_sorted(r@),
{
    bytes.into_iter().sorted().collect()
}

/// `Itertools::dedup`, collected again. Assumed, as its documentation says:
/// of every run of one byte only one is left.
#[verifier::external_body]
fn dedup_bytes(bytes: Vec<u8>) -> (r: Vec<u8>)
    ensures
        r@ == spec_dedup(bytes@),
{
    bytes.into_iter().dedup().collect()
}

/// A sorted sequence without its runs is ascending, holds the bytes that the
/// sequence holds and no others, and ends as the sequence ends.
pub proof fn lemma_dedup_sorted(s: Seq<u8>)
    requires
        spec_sorted(s),
    ensures
        spec_ascending(spec_dedup(s)),
        forall|b: u8| spec_dedup(s).contains(b) <==> s.contains(b),
        s.len() > 0 ==> spec_dedup(s).len() > 0 && spec_dedup(s).last() == s.last(),
        s.len() == 0 ==> spec_dedup(s).len() == 0,
    decreases s.len(),
{
    if s.len() > 0 {
        let front = s.drop_last();
        assert(spec_sorted(front)) by {
            assert forall|i: int, j: int| 0 <= i <= j < front.len() implies front[i]
                <= front[j] by {
                assert(front[i] == s[i] && front[j] == s[j]);
            }
        }
        lemma_dedup_sorted(front);
        let d = spec_dedup(front);
        let r = spec_dedup(s);
        if s.len() >= 2 && s[s.len() - 2] == s.last() {
            assert(front.last() == s[s.len() - 2]);
            assert forall|b: u8| r.contains(b) <==> s.contains(b) by {
                if s.contains(b) {
                    let i = choose|i: int| 0 <= i < s.len() && s[i] == b;
                    if i == s.len() - 1 {
                        assert(front[s.len() - 2] == b);
                    } else {
                        assert(front[i] == b);
                    }
                    assert(front.contains(b));
                }
                if r.contains(b) {
                    assert(front.contains(b));
                    let i = choose|i: int| 0 <= i < front.len() && front[i] == b;
                    assert(s[i] == b);
                }
            }
        } else {
            assert(r == d.push(s.last()));
            assert forall|i: int, j: int| 0 <= i < j < r.len() implies r[i] < r[j] by {
                if j == r.len() - 1 {
                    assert(d.contains(r[i]));
                    assert(front.contains(r[i]));
                    let k = choose|k: int| 0 <= k < front.len() && front[k] == r[i];
                    assert(s[k] <= s[s.len() - 2]);
                    assert(s[s.len() - 2] <= s[s.len() - 1]);
                    if r[i] == s.last() {
                        assert(d.last() == front.last());
                        assert(s[k] <= s[s.len() - 2] <= s[s.len() - 1]);
                        assert(s[s.len() - 2] == s.last());
                    }
                } else {
                    assert(r[i] == d[i] && r[j] == d[j]);
                }
            }
            assert forall|b: u8| r.contains(b) <==> s.contains(b) by {
                if s.contains(b) {
                    let i = choose|i: int| 0 <= i < s.len() && s[i] == b;
                    if i == s.len() - 1 {
                        assert(r[r.len() - 1] == b);
                    } else {
                        assert(front[i] == b);
                        assert(front.contains(b));
                        assert(d.contains(b));
                        let k = choose|k: int| 0 <= k < d.len() && d[k] == b;
                        assert(r[k] == b);
                    }
                }
                if r.contains(b) {
                    let k = choose|k: int| 0 <= k < r.len() && r[k] == b;
                    if k == r.len() - 1 {
                        assert(s[s.len() - 1] == b);
                    } else {
                        assert(d[k] == b);
                        assert(front.contains(b));
                        let i = choose|i: int| 0 <= i < front.len() && front[i] == b;
                        assert(s[i] == b);
                    }
                }
            }
        }
    }
}

/// The place of a letter among the four letters, in ascending order.
pub open spec fn spec_rank(letter: u8) -> int {
    if letter == 0x68 {
        0
    } else if letter == 0x6c {
        1
    } else if letter == 0x70 {
        2
    } else {
        3
    }
}

/// In an ascending run of letters the letter at place `k` has at least the
/// rank `k`: so no such run is longer than four.
pub proof fn lemma_rank(s: Seq<u8>, k: int)
    requires
        spec_ascending(s),
        0 <= k < s.len(),
        forall|j: int| 0 <= j <= k ==> spec_attribute_of(#[trigger] s[j]) is Some,
    ensures
        spec_rank(s[k]) >= k,
        k <= 3,
    decreases k,
{
    if k > 0 {
        lemma_rank(s, k - 1);
        assert(s[k - 1] < s[k]);
        assert(spec_attribute_of(s[k - 1]) is Some);
        assert(spec_attribute_of(s[k]) is Some);
    }
}

/// Two ascending sequences that hold the same bytes are one sequence.
pub proof fn lemma_ascending_unique(a: Seq<u8>, b: Seq<u8>)
    requires
        spec_ascending(a),
        spec_ascending(b),
        forall|x: u8| a.contains(x) <==> b.contains(x),
    ensures
        a == b,
    decreases a.len(),
{
    if a.len() == 0 {
        if b.len() > 0 {
            assert(b.contains(b[0]));
        }
        assert(a =~= b);
    } else {
        assert(a.contains(a.last()));
        assert(b.contains(a.last()));
        assert(b.len() > 0);
        assert(b.contains(b.last()));
        assert(a.contains(b.last()));
        let i = choose|i: int| 0 <= i < b.len() && b[i] == a.last();
        let j = choose|j: int| 0 <= j < a.len() && a[j] == b.last();
        assert(a.last() == b.last()) by {
            if i < b.len() - 1 {
                assert(b[i] < b[b.len() - 1]);
            }
            if j < a.len() - 1 {
                assert(a[j] < a[a.len() - 1]);
            }
        }
        let fa = a.drop_last();
        let fb = b.drop_last();
        assert(spec_ascending(fa)) by {
            assert forall|p: int, q: int| 0 <= p < q < fa.len() implies fa[p] < fa[q] by {
                assert(fa[p] == a[p] && fa[q] == a[q]);
            }
        }
        assert(spec_ascending(fb)) by {
            assert forall|p: int, q: int| 0 <= p < q < fb.len() implies fb[p] < fb[q] by {
                assert(fb[p] == b[p] && fb[q] == b[q]);
            }
        }
        assert forall|x: u8| fa.contains(x) <==> fb.contains(x) by {
            if fa.contains(x) {
                let p = choose|p: int| 0 <= p < fa.len() && fa[p] == x;
                assert(a[p] == x);
                assert(a[p] < a[a.len() - 1]);
                assert(a.contains(x));
                let q = choose|q: int| 0 <= q < b.len() && b[q] == x;
                assert(q < b.len() - 1);
                assert(fb[q] == x);
            }
            if fb.contains(x) {
                let p = choose|p: int| 0 <= p < fb.len() && fb[p] == x;
                assert(b[p] == x);
                assert(b[p] < b[b.len() - 1]);
                assert(b.contains(x));
                let q = choose|q: int| 0 <= q < a.len() && a[q] == x;
                assert(q < a.len() - 1);
                assert(fa[q] == x);
            }
        }
        lemma_ascending_unique(fa, fb);
        assert(a =~= fa.push(a.last()));
        assert(b =~= fb.push(b.last()));
    }
}

/// Whether `letters` is what the text `text` names: the letters of the text
/// in lower case, each once, in ascending order, all of them letters of
/// attributes.
pub open spec fn spec_names_attributes(text: Seq<u8>, letters: Seq<u8>) -> bool {
    &&& spec_ascending(letters)
    &&& forall|b: u8| letters.contains(b) <==> spec_lower(text).contains(b)
    &&& forall|i: int| 0 <= i < letters.len() ==> spec_attribute_of(#[trigger] letters[i]) is Some
}

/// Whether `b` is the byte that a text is refused for: of the bytes of the
/// text in lower case that name no attribute, the smallest.
pub open spec fn spec_refused_for(text: Seq<u8>, b: u8) -> bool {
    &&& spec_lower(text).contains(b)
    &&& spec_attribute_of(b) is None
    &&& forall|d: u8|
        spec_lower(text).contains(d) && spec_attribute_of(d) is None ==> b <= d
}

/// Whether every byte of the text, in lower case, names an attribute.
pub open spec fn spec_all_attributes(text: Seq<u8>) -> bool {
    forall|i: int| 0 <= i < text.len() ==> spec_attribute_of(spec_ascii_lower(#[trigger] text[i]))
        is Some
}

/// What a text names: the letters of its attributes in ascending order, or
/// the byte that it is refused for.
pub open spec fn spec_attributes(text: Seq<u8>) -> Result<Seq<u8>, AttributeError> {
    if spec_all_attributes(text) {
        Ok(choose|letters: Seq<u8>| spec_names_attributes(text, letters))
    } else {
        Err(AttributeError::UnknownVariant(choose|b: u8| spec_refused_for(text, b)))
    }
}

/// Only one run of letters is what a text names.
pub proof fn lemma_attributes_unique(text: Seq<u8>, letters: Seq<u8>)
    requires
        spec_all_attributes(text),
        spec_names_attributes(text, letters),
    ensures
        spec_attributes(text) == Ok::<Seq<u8>, AttributeError>(letters),
{
    let chosen = choose|l: Seq<u8>| spec_names_attributes(text, l);
    assert(spec_names_attributes(text, chosen));
    lemma_ascending_unique(chosen, letters);
}

/// Only one byte is the byte that a text is refused for.
pub proof fn lemma_refusal_unique(text: Seq<u8>, b: u8)
    requires
        !spec_all_attributes(text),
        spec_refused_for(text, b),
    ensures
        spec_attributes(text) == Err::<Seq<u8>, AttributeError>(AttributeError::UnknownVariant(b)),
{
    let chosen = choose|c: u8| spec_refused_for(text, c);
    assert(spec_refused_for(text, chosen));
    assert(chosen <= b && b <= chosen);
}

/// The attributes of a file: a set, held in the order of the letters.
#[derive(Debug)]
pub struct TorrentFileAttributes {
    letters: ArrayVec<u8, 4>,
}

impl View for TorrentFileAttributes {
    type V = Seq<FileAttribute>;

    open spec fn view(&self) -> Seq<FileAttribute> {
        Seq::new(
            self.spec_letters().len(),
            |i: int| spec_attribute_of(self.spec_letters()[i]).unwrap(),
        )
    }
}

impl TorrentFileAttributes {
    #[verifier::type_invariant]
    spec fn wf(&self) -> bool {
        &&& spec_ascending(arrayvec_items(self.letters))
        &&& forall|i: int|
            0 <= i < arrayvec_items(self.letters).len() ==> spec_attribute_of(
                #[trigger] arrayvec_items(self.letters)[i],
            ) is Some
    }

    /// The letters of the attributes, in ascending order.
    pub closed spec fn spec_letters(&self) -> Seq<u8> {
        arrayvec_items(self.letters)
    }

    /// The attributes that a text names. Every byte of the text must be one
    /// of the four letters, in either case; the text is refused for the
    /// smallest byte that is none.
    pub fn try_from(value: &str) -> (r: Result<Self, AttributeError>)
        ensures
            match spec_attributes(value.spec_bytes()) {
                Ok(letters) => r matches Ok(attributes) && attributes.spec_letters() == letters,
                Err(e) => r matches Err(f) && f == e,
            },
            spec_all_attributes(value.spec_bytes()) ==> (r matches Ok(attributes)
                && spec_names_attributes(value.spec_bytes(), attributes.spec_letters())),
            !spec_all_attributes(value.spec_bytes()) ==> (r matches Err(
                AttributeError::UnknownVariant(b),
            ) && spec_refused_for(value.spec_bytes(), b)),
    {
        Self::try_from_bytes(value.as_bytes())
    }

    /// The attributes that the bytes of a text name: as `try_from`.
    pub fn try_from_bytes(text: &[u8]) -> (r: Result<Self, AttributeError>)
        ensures
            match spec_attributes(text@) {
                Ok(letters) => r matches Ok(attributes) && attributes.spec_letters() == letters,
                Err(e) => r matches Err(f) && f == e,
            },
            spec_all_attributes(text@) ==> (r matches Ok(attributes) && spec_names_attributes(
                text@,
                attributes.spec_letters(),
            )),
            !spec_all_attributes(text@) ==> (r matches Err(AttributeError::UnknownVariant(b))
                && spec_refused_for(text@, b)),
    {
        let mut lowered: Vec<u8> = Vec::new();
        let mut i: usize = 0;
        while i < text.len()
            invariant
                i <= text@.len(),
                lowered@.len() == i,
                forall|k: int| 0 <= k < i ==> lowered@[k] == spec_ascii_lower(#[trigger] text@[k]),
            decreases text@.len() - i,
        {
            lowered.push(ascii_lower(text[i]));
            i += 1;
        }
        assert(lowered@ =~= spec_lower(text@));
        let ghost low = lowered@;
        let sorted = sorted_bytes(lowered);
        let ghost sorted_seq = sorted@;
        let unique = dedup_bytes(sorted);
        proof {
            low.to_multiset_ensures();
            sorted_seq.to_multiset_ensures();
            lemma_dedup_sorted(sorted_seq);
            assert forall|b: u8| unique@.contains(b) <==> low.contains(b) by {
                assert(sorted_seq.contains(b) <==> sorted_seq.to_multiset().count(b) > 0);
                assert(low.contains(b) <==> low.to_multiset().count(b) > 0);
            }
        }
        let mut letters: ArrayVec<u8, 4> = arrayvec_new();
        let mut k: usize = 0;
        while k < unique.len()
            invariant
                k <= unique@.len(),
                arrayvec_items(letters) == unique@.take(k as int),
                spec_ascending(unique@),
                forall|j: int| 0 <= j < k ==> spec_attribute_of(#[trigger] unique@[j]) is Some,
                forall|b: u8| unique@.contains(b) <==> low.contains(b),
                low == spec_lower(text@),
            decreases unique@.len() - k,
        {
            let letter: u8 = unique[k];
            proof {
                assert(unique@[k as int] == letter);
                assert(unique@.contains(letter));
                assert(low.contains(letter));
                let p = choose|p: int| 0 <= p < low.len() && low[p] == letter;
                assert(low[p] == spec_ascii_lower(text@[p]));
                assert(spec_ascii_lower(spec_ascii_lower(text@[p])) == spec_ascii_lower(text@[p]));
                assert(spec_ascii_lower(letter) == letter);
            }
            match FileAttribute::try_from(letter) {
                Ok(_) => {
                    proof {
                        lemma_rank(unique@, k as int);
                        assert(unique@.take(k as int).push(letter) =~= unique@.take(k + 1));
                    }
                    arrayvec_push(&mut letters, letter);
                },
                Err(e) => {
                    proof {
                        let p = choose|p: int| 0 <= p < low.len() && low[p] == letter;
                        assert(low[p] == spec_ascii_lower(text@[p]));
                        assert(spec_attribute_of(spec_ascii_lower(text@[p])) is None);
                        assert forall|d: u8|
                            low.contains(d) && spec_attribute_of(d) is None implies letter
                            <= d by {
                            assert(unique@.contains(d));
                            let q = choose|q: int| 0 <= q < unique@.len() && unique@[q] == d;
                            if q < k {
                                assert(spec_attribute_of(unique@[q]) is Some);
                            } else if q > k {
                                assert(unique@[k as int] < unique@[q]);
                            }
                        }
                        assert(spec_refused_for(text@, letter));
                        assert(!spec_all_attributes(text@));
                        lemma_refusal_unique(text@, letter);
                    }
                    return Err(e);
                },
            }
            k += 1;
        }
        proof {
            assert(unique@.take(k as int) =~= unique@);
            if !spec_all_attributes(text@) {
                let p = choose|p: int|
                    0 <= p < text@.len() && !(spec_attribute_of(
                        spec_ascii_lower(#[trigger] text@[p]),
                    ) is Some);
                assert(low[p] == spec_ascii_lower(text@[p]));
                assert(low.contains(low[p]));
                assert(unique@.contains(low[p]));
                let q = choose|q: int| 0 <= q < unique@.len() && unique@[q] == low[p];
                assert(spec_attribute_of(unique@[q]) is Some);
            }
            lemma_attributes_unique(text@, unique@);
        }
        Ok(TorrentFileAttributes { letters })
    }

    /// The number of attributes.
    pub fn len(&self) -> (r: usize)
        ensures
            r == self@.len(),
            r <= 4,
    {
        proof {
            use_type_invariant(self);
            if self.spec_letters().len() > 0 {
                lemma_rank(self.spec_letters(), self.spec_letters().len() - 1);
            }
        }
        arrayvec_as_slice(&self.letters).len()
    }

    /// The attribute at `index`, counted in the order of the letters.
    pub fn get(&self, index: usize) -> (r: FileAttribute)
        requires
            index < self@.len(),
        ensures
            r == self@[index as int],
    {
        proof {
            use_type_invariant(self);
        }
        let letter: u8 = arrayvec_as_slice(&self.letters)[index];
        match FileAttribute::try_from(letter) {
            Ok(attribute) => attribute,
            Err(_) => FileAttribute::Executable,
        }
    }

    /// Whether `attribute` is among the attributes.
    pub fn contains(&self, attribute: FileAttribute) -> (r: bool)
        ensures
            r == self@.contains(attribute),
    {
        proof {
            use_type_invariant(self);
        }
        let letters = arrayvec_as_slice(&self.letters);
        let wanted: u8 = attribute.letter();
        let mut i: usize = 0;
        while i < letters.len()
            invariant
                i <= letters@.len(),
                letters@ == self.spec_letters(),
                wanted == spec_letter_of(attribute),
                forall|k: int| 0 <= k < i ==> self@[k] != attribute,
                forall|k: int|
                    0 <= k < letters@.len() ==> spec_attribute_of(#[trigger] letters@[k]) is Some,
            decreases letters@.len() - i,
        {
            assert(spec_attribute_of(letters@[i as int]) is Some);
            if letters[i] == wanted {
                assert(self@[i as int] == attribute);
                return true;
            }
            i += 1;
        }
        assert(!self@.contains(attribute)) by {
            if self@.contains(attribute) {
                let k = choose|k: int| 0 <= k < self@.len() && self@[k] == attribute;
                assert(self@[k] != attribute);
            }
        }
        false
    }

    /// The letters of the attributes, in ascending order.
    pub fn letters(&self) -> (r: Vec<u8>)
        ensures
            r@ == self.spec_letters(),
            spec_names_attributes(r@, r@),
    {
        proof {
            use_type_invariant(self);
            let s = self.spec_letters();
            assert(spec_lower(s) =~= s) by {
                assert forall|i: int| 0 <= i < s.len() implies spec_ascii_lower(s[i]) == s[i] by {
                    assert(spec_attribute_of(s[i]) is Some);
                }
            }
        }
        vstd::slice::slice_to_vec(arrayvec_as_slice(&self.letters))
    }

    /// The attributes as text: their letters in ascending order.
    pub fn to_string(&self) -> (r: String)
        ensures
            r@ == spec_ascii_chars(self.spec_letters()),
    {
        proof {
            use_type_invariant(self);
            assert forall|i: int| 0 <= i < self.spec_letters().len() implies
                #[trigger] self.spec_letters()[i] < 128 by {
                assert(spec_attribute_of(self.spec_letters()[i]) is Some);
            }
        }
        ascii_to_string(arrayvec_as_slice(&self.letters))
    }
}

impl Clone for TorrentFileAttributes {
    fn clone(&self) -> (r: Self)
        ensures
            r.spec_letters() == self.spec_letters(),
    {
        proof {
            use_type_invariant(self);
        }
        let source = arrayvec_as_slice(&self.letters);
        let mut letters: ArrayVec<u8, 4> = arrayvec_new();
        let mut i: usize = 0;
        while i < source.len()
            invariant
                i <= source@.len(),
                source@ == arrayvec_items(self.letters),
                arrayvec_items(letters) == source@.take(i as int),
                spec_ascending(source@),
                forall|k: int|
                    0 <= k < source@.len() ==> spec_attribute_of(#[trigger] source@[k]) is Some,
            decreases source@.len() - i,
        {
            proof {
                lemma_rank(source@, i as int);
                assert(source@.take(i as int).push(source@[i as int]) =~= source@.take(i + 1));
            }
            arrayvec_push(&mut letters, source[i]);
            i += 1;
        }
        assert(source@.take(i as int) =~= source@);
        TorrentFileAttributes { letters }
    }
}

} // verus!
