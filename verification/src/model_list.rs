//! The list of conversation models offered for switching: the `.gguf` files
//! of the model folder, ordered by file name.
use vstd::prelude::*;
use vstd::relations::sorted_by;

use crate::text::{str_eq, strings_view};

verus! {

broadcast use vstd::seq_lib::group_to_multiset_ensures;

/// The order of file names: `String`'s order, which compares the UTF-8 bytes
/// and therefore orders by code point, character after character, a proper
/// prefix coming first.
pub open spec fn name_le(a: Seq<char>, b: Seq<char>) -> bool
    decreases a.len(),
{
    if a.len() == 0 {
        true
    } else if b.len() == 0 {
        false
    } else if a[0] != b[0] {
        (a[0] as int) < (b[0] as int)
    } else {
        name_le(a.drop_first(), b.drop_first())
    }
}

/// Any two names are ordered one way or the other.
pub proof fn lemma_name_le_total(a: Seq<char>, b: Seq<char>)
    ensures
        name_le(a, b) || name_le(b, a),
    decreases a.len(),
{
    if a.len() > 0 && b.len() > 0 && a[0] == b[0] {
        lemma_name_le_total(a.drop_first(), b.drop_first());
    }
}

/// The order is transitive.
pub proof fn lemma_name_le_transitive(a: Seq<char>, b: Seq<char>, c: Seq<char>)
    requires
        name_le(a, b),
        name_le(b, c),
    ensures
        name_le(a, c),
    decreases a.len(),
{
    if a.len() > 0 && b.len() > 0 && c.len() > 0 && a[0] == b[0] && b[0] == c[0] {
        lemma_name_le_transitive(a.drop_first(), b.drop_first(), c.drop_first());
    }
}

/// Two names ordered both ways are the same name.
pub proof fn lemma_name_le_antisymmetric(a: Seq<char>, b: Seq<char>)
    requires
        name_le(a, b),
        name_le(b, a),
    ensures
        a == b,
    decreases a.len(),
{
    if a.len() > 0 && b.len() > 0 {
        lemma_name_le_antisymmetric(a.drop_first(), b.drop_first());
        assert(a =~= seq![a[0]] + a.drop_first());
        assert(b =~= seq![b[0]] + b.drop_first());
    }
}

/// Compares two names (see `name_le`).
fn name_le_exec(a: &[char], b: &[char]) -> (r: bool)
    ensures
        r == name_le(a@, b@),
{
    let mut i: usize = 0;
    assert(a@.skip(0) =~= a@);
    assert(b@.skip(0) =~= b@);
    while i < a.len() && i < b.len() && a[i] == b[i]
        invariant
            i <= a@.len(),
            i <= b@.len(),
            name_le(a@, b@) == name_le(a@.skip(i as int), b@.skip(i as int)),
        decreases a@.len() - i,
    {
        assert(a@.skip(i as int).drop_first() =~= a@.skip(i + 1));
        assert(b@.skip(i as int).drop_first() =~= b@.skip(i + 1));
        i = i + 1;
    }
    if i == a.len() {
        true
    } else if i == b.len() {
        false
    } else {
        a[i] < b[i]
    }
}

/// A model file is one with the `gguf` extension.
pub fn is_model_extension(extension: Option<&str>) -> (b: bool)
    ensures
        b == (extension matches Some(e) && e@ == "gguf"@),
{
    match extension {
        Some(e) => str_eq(e, "gguf"),
        None => false,
    }
}

/// The names in `String` order: the same names, each as often as given,
/// sorted by `name_le`.
pub fn sort_names(names: Vec<String>) -> (out: Vec<String>)
    ensures
        strings_view(out@).to_multiset() == strings_view(names@).to_multiset(),
        sorted_by(strings_view(out@), |x: Seq<char>, y: Seq<char>| name_le(x, y)),
{
    let ghost input = strings_view(names@);
    let mut out: Vec<String> = Vec::new();
    let mut i: usize = 0;
    while i < names.len()
        invariant
            input == strings_view(names@),
            i <= names@.len(),
            strings_view(out@).to_multiset() == input.take(i as int).to_multiset(),
            forall|p: int, q: int|
                0 <= p < q < out@.len() ==> name_le(#[trigger] out@[p]@, #[trigger] out@[q]@),
        decreases names@.len() - i,
    {
        let x = names[i].clone();
        let xc: Vec<char> = crate::text::chars_of(x.as_str());
        let mut pos: usize = 0;
        while pos < out.len() && name_le_exec(crate::text::chars_of(out[pos].as_str()).as_slice(), xc.as_slice())
            invariant
                pos <= out@.len(),
                xc@ == x@,
                forall|p: int| 0 <= p < pos ==> name_le(#[trigger] out@[p]@, x@),
            decreases out@.len() - pos,
        {
            pos = pos + 1;
        }
        proof {
            if pos < out@.len() {
                lemma_name_le_total(out@[pos as int]@, x@);
            }
        }
        let ghost old_out = out@;
        out.insert(pos, x);
        proof {
            assert(out@ == old_out.insert(pos as int, x));
            assert forall|p: int, q: int| 0 <= p < q < out@.len() implies name_le(
                #[trigger] out@[p]@,
                #[trigger] out@[q]@,
            ) by {
                if q < pos {
                    assert(out@[p] == old_out[p] && out@[q] == old_out[q]);
                } else if q == pos {
                    assert(out@[p] == old_out[p]);
                } else if p < pos {
                    assert(out@[p] == old_out[p] && out@[q] == old_out[q - 1]);
                    assert(name_le(old_out[p]@, x@));
                    assert(name_le(x@, old_out[pos as int]@));
                    if pos as int <= q - 1 - 1 {
                        assert(name_le(old_out[pos as int]@, old_out[q - 1]@));
                        lemma_name_le_transitive(x@, old_out[pos as int]@, old_out[q - 1]@);
                    }
                    lemma_name_le_transitive(old_out[p]@, x@, old_out[q - 1]@);
                } else if p == pos {
                    assert(out@[q] == old_out[q - 1]);
                    assert(name_le(x@, old_out[pos as int]@));
                    if pos as int <= q - 1 - 1 {
                        assert(name_le(old_out[pos as int]@, old_out[q - 1]@));
                        lemma_name_le_transitive(x@, old_out[pos as int]@, old_out[q - 1]@);
                    }
                } else {
                    assert(out@[p] == old_out[p - 1] && out@[q] == old_out[q - 1]);
                }
            }
            let sv_old = strings_view(old_out);
            let sv_new = strings_view(out@);
            assert(sv_new.remove(pos as int) =~= sv_old);
            assert(sv_new[pos as int] == input[i as int]);
            assert(input.take(i + 1) =~= input.take(i as int).push(input[i as int]));
            assert(sv_new.to_multiset() =~= sv_old.to_multiset().insert(input[i as int])) by {
                assert(sv_new.remove(pos as int).to_multiset() == sv_new.to_multiset().remove(
                    sv_new[pos as int],
                ));
                assert(sv_new.to_multiset().count(input[i as int]) > 0);
            }
        }
        i = i + 1;
    }
    assert(input.take(names@.len() as int) =~= input);
    out
}

} // verus!
