//! Text: lower case, substrings, padding, and lists collected from other lists.

use vstd::prelude::*;
use vstd::string::*;

verus! {

/// The lower case of a text, as `str::to_lowercase` gives it.
pub uninterp spec fn lowercase_of(text: Seq<char>) -> Seq<char>;

/// `str::to_lowercase` returns the lower case of its text, which depends on the text alone:
/// the mapping is Unicode's and knows no locale. What the lower case of a given text is,
/// the contract does not say.
pub assume_specification[ str::to_lowercase ](text: &str) -> (lowered: String)
    ensures
        lowered@ == lowercase_of(text@),
;

/// Whether `term` stands in `text` at position `at`.
pub open spec fn occurs_at(term: Seq<char>, text: Seq<char>, at: int) -> bool {
    &&& 0 <= at
    &&& at + term.len() <= text.len()
    &&& text.subrange(at, at + term.len()) == term
}

/// Whether `term` stands somewhere in `text`.
pub open spec fn occurs(term: Seq<char>, text: Seq<char>) -> bool {
    exists|at: int| occurs_at(term, text, at)
}

/// `str::contains`, called with a text for its pattern, says whether that text is a part of
/// the other.
#[verifier::external_body]
pub(crate) fn contains(text: &str, term: &str) -> (found: bool)
    ensures
        found == occurs(term@, text@),
{
    text.contains(term)
}

/// The contents of a list of texts.
pub open spec fn texts(list: Seq<String>) -> Seq<Seq<char>> {
    list.map_values(|text: String| text@)
}

/// `text`, filled up with blanks on the right to at least `width` characters.
pub open spec fn padded(text: Seq<char>, width: nat) -> Seq<char> {
    if text.len() < width {
        text + Seq::new((width - text.len()) as nat, |i: int| ' ')
    } else {
        text
    }
}

/// Fills `text` up with blanks on the right to at least `width` characters.
pub fn pad(text: String, width: usize) -> (result: String)
    ensures
        result@ == padded(text@, width as nat),
{
    let mut result = text;
    let mut len: usize = result.as_str().unicode_len();
    proof {
        reveal_strlit(" ");
    }
    while len < width
        invariant
            len == result@.len(),
            text@.len() <= len,
            len <= width || len == text@.len(),
            result@ == text@ + Seq::new((len - text@.len()) as nat, |i: int| ' '),
            " "@ == seq![' '],
        decreases width - len,
    {
        result.append(" ");
        len = len + 1;
    }
    result
}

/// The items of `list` that satisfy `keep`, in their order, each put through `form`.
pub open spec fn collected<A, B>(
    list: Seq<A>,
    keep: spec_fn(A) -> bool,
    form: spec_fn(A) -> B,
) -> Seq<B> {
    list.filter(keep).map_values(form)
}

/// What is collected from a list's first items, from none to all of them.
pub(crate) proof fn lemma_collected_ends<A, B>(
    list: Seq<A>,
    keep: spec_fn(A) -> bool,
    form: spec_fn(A) -> B,
)
    ensures
        collected(list.take(0), keep, form) == Seq::<B>::empty(),
        collected(list.take(list.len() as int), keep, form) == collected(list, keep, form),
{
    reveal(Seq::filter);
    assert(list.take(list.len() as int) =~= list);
    assert(collected(list.take(0), keep, form) =~= Seq::<B>::empty());
}

/// What the next item adds to what is collected, as a list and as a set.
pub(crate) proof fn lemma_collected_step<A, B>(
    list: Seq<A>,
    keep: spec_fn(A) -> bool,
    form: spec_fn(A) -> B,
    i: int,
)
    requires
        0 <= i < list.len(),
    ensures
        keep(list[i]) ==> {
            &&& collected(list.take(i + 1), keep, form) == collected(
                list.take(i),
                keep,
                form,
            ).push(form(list[i]))
            &&& collected(list.take(i + 1), keep, form).to_set() == collected(
                list.take(i),
                keep,
                form,
            ).to_set().insert(form(list[i]))
        },
        !keep(list[i]) ==> collected(list.take(i + 1), keep, form) == collected(
            list.take(i),
            keep,
            form,
        ),
{
    broadcast use Seq::lemma_push_to_set_commute;

    reveal(Seq::filter);
    let longer = list.take(i + 1);
    assert(longer.drop_last() =~= list.take(i));
    assert(longer.last() == list[i]);
    if keep(list[i]) {
        assert(collected(longer, keep, form) =~= collected(list.take(i), keep, form).push(
            form(list[i]),
        ));
    }
}

/// What is collected comes from the items that satisfy `keep`, and from each of them.
pub(crate) proof fn lemma_collected_members<A, B>(
    list: Seq<A>,
    keep: spec_fn(A) -> bool,
    form: spec_fn(A) -> B,
)
    ensures
        forall|i: int|
            0 <= i < list.len() && keep(#[trigger] list[i]) ==> collected(
                list,
                keep,
                form,
            ).contains(form(list[i])),
        forall|x: B| #[trigger]
            collected(list, keep, form).contains(x) ==> exists|i: int|
                0 <= i < list.len() && keep(#[trigger] list[i]) && form(list[i]) == x,
    decreases list.len(),
{
    reveal(Seq::filter);
    if list.len() > 0 {
        let rest = list.drop_last();
        let earlier = collected(rest, keep, form);
        let all = collected(list, keep, form);
        lemma_collected_members(rest, keep, form);
        lemma_collected_step(list, keep, form, list.len() - 1);
        assert(list.take(list.len() - 1) =~= rest);
        assert(list.take(list.len() as int) =~= list);
        assert forall|i: int| 0 <= i < list.len() && keep(#[trigger] list[i]) implies all.contains(
            form(list[i]),
        ) by {
            if i < rest.len() {
                assert(rest[i] == list[i]);
                let k = choose|k: int| 0 <= k < earlier.len() && earlier[k] == form(list[i]);
                assert(all[k] == earlier[k]);
            } else {
                assert(all[all.len() - 1] == form(list[i]));
            }
        }
        assert forall|x: B| #[trigger] all.contains(x) implies exists|i: int|
            0 <= i < list.len() && keep(#[trigger] list[i]) && form(list[i]) == x by {
            let k = choose|k: int| 0 <= k < all.len() && all[k] == x;
            if k < earlier.len() {
                assert(earlier[k] == x);
                assert(earlier.contains(x));
                let i = choose|i: int|
                    0 <= i < rest.len() && keep(#[trigger] rest[i]) && form(rest[i]) == x;
                assert(list[i] == rest[i]);
            } else {
                assert(keep(list[list.len() - 1]));
            }
        }
    }
}

} // verus!
