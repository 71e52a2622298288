//! Text primitives that the editor takes from std and from unicode-segmentation.
use unicode_segmentation::UnicodeSegmentation;
use vstd::prelude::*;
use vstd::std_specs::iter::IteratorSpec;
use vstd::seq_lib::lemma_flatten_concat;

verus! {

/// The extended grapheme clusters of a text, in order.
pub uninterp spec fn graphemes_of(s: Seq<char>) -> Seq<Seq<char>>;

/// The texts of a sequence of strings.
pub open spec fn views(v: Seq<String>) -> Seq<Seq<char>> {
    v.map_values(|g: String| g@)
}

/// Relies on `UnicodeSegmentation::graphemes(s, true)`: it yields the extended grapheme
/// clusters of `s` as consecutive slices from the start of `s` to its end, so together
/// they spell `s`, each holds at least one character, and an empty `s` yields none.
#[verifier::external_body]
pub(crate) fn graphemes(s: &str) -> (r: Vec<String>)
    ensures
        views(r@) == graphemes_of(s@),
        views(r@).flatten() == s@,
        forall|i: int| 0 <= i < r@.len() ==> #[trigger] r@[i]@.len() > 0,
        s@.len() == 0 ==> r@.len() == 0,
{
    s.graphemes(true).map(String::from).collect()
}

/// Relies on `String::push`: appends one character.
#[verifier::external_body]
pub(crate) fn push_char(s: &mut String, c: char)
    ensures
        final(s)@ == old(s)@.push(c),
{
    s.push(c)
}

/// The characters of `s`, in order.
pub(crate) fn chars_of(s: &str) -> (r: Vec<char>)
    ensures
        r@ == s@,
{
    let mut r: Vec<char> = Vec::new();
    let mut it = s.chars();
    loop
        invariant
            it.obeys_prophetic_iter_laws(),
            r@ + it.remaining() == s@,
            it.decrease() is Some,
        ensures
            r@ == s@,
        decreases it.decrease()->0,
    {
        match it.next() {
            Some(c) => {
                r.push(c);
            },
            None => {
                break;
            },
        }
    }
    r
}

/// Concatenates the strings `gs[from..to]`.
pub(crate) fn join(gs: &Vec<String>, from: usize, to: usize) -> (r: String)
    requires
        from <= to <= gs.len(),
    ensures
        r@ == views(gs@).subrange(from as int, to as int).flatten(),
{
    let mut r = String::new();
    let mut i = from;
    while i < to
        invariant
            from <= i <= to <= gs.len(),
            r@ == views(gs@).subrange(from as int, i as int).flatten(),
        decreases to - i,
    {
        proof {
            let v = views(gs@);
            assert(v.subrange(from as int, i + 1) =~= v.subrange(from as int, i as int).push(
                v[i as int],
            ));
            v.subrange(from as int, i as int).lemma_flatten_push(v[i as int]);
        }
        r.append(gs[i].as_str());
        i += 1;
    }
    r
}

/// Flattening a sequence cut in two gives the flattened halves, one after the other.
pub proof fn lemma_flatten_split(s: Seq<Seq<char>>, at: int)
    requires
        0 <= at <= s.len(),
    ensures
        s.subrange(0, at).flatten() + s.subrange(at, s.len() as int).flatten() == s.flatten(),
{
    lemma_flatten_concat(s.subrange(0, at), s.subrange(at, s.len() as int));
    assert(s.subrange(0, at) + s.subrange(at, s.len() as int) =~= s);
}

} // verus!

verus! {

/// A string of the first `len` characters of `chars`.
pub(crate) fn string_of(chars: &Vec<char>, len: usize) -> (r: String)
    requires
        len <= chars.len(),
    ensures
        r@ == chars@.subrange(0, len as int),
{
    let mut r = String::new();
    let mut i: usize = 0;
    while i < len
        invariant
            i <= len <= chars.len(),
            r@ == chars@.subrange(0, i as int),
        decreases len - i,
    {
        push_char(&mut r, chars[i]);
        assert(chars@.subrange(0, i + 1) =~= chars@.subrange(0, i as int).push(chars@[i as int]));
        i += 1;
    }
    r
}

} // verus!
