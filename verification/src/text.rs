//! Texts and lists of texts: what they hold, and how they are put together.

use vstd::prelude::*;

verus! {

/// The texts that a list of strings holds, in order.
pub open spec fn texts(list: Seq<String>) -> Seq<Seq<char>> {
    Seq::new(list.len(), |i: int| list[i]@)
}

/// Every part with `before` in front of it and `after` behind it, one after
/// the other.
pub open spec fn wrapped(parts: Seq<Seq<char>>, before: Seq<char>, after: Seq<char>) -> Seq<char>
    decreases parts.len(),
{
    if parts.len() == 0 {
        Seq::empty()
    } else {
        wrapped(parts.drop_last(), before, after) + before + parts.last() + after
    }
}

/// Every part with `sep` in front of it, one after the other.
pub open spec fn prefixed(parts: Seq<Seq<char>>, sep: Seq<char>) -> Seq<char> {
    wrapped(parts, sep, Seq::empty())
}

/// `piece` written `n` times.
pub open spec fn repeated(piece: Seq<char>, n: nat) -> Seq<char>
    decreases n,
{
    if n == 0 {
        Seq::empty()
    } else {
        repeated(piece, (n - 1) as nat) + piece
    }
}

/// `word` and a space after it, or nothing where there is no word.
pub open spec fn spaced(word: Seq<char>) -> Seq<char> {
    if word.len() == 0 {
        Seq::empty()
    } else {
        word + " "@
    }
}

/// The parts with `sep` between neighbours.
pub open spec fn joined(parts: Seq<Seq<char>>, sep: Seq<char>) -> Seq<char> {
    if parts.len() == 0 {
        Seq::empty()
    } else {
        parts[0] + prefixed(parts.drop_first(), sep)
    }
}

/// Whether `needle` occurs in `hay` as one unbroken piece.
pub open spec fn occurs_in(needle: Seq<char>, hay: Seq<char>) -> bool {
    exists|at: int|
        0 <= at && at + needle.len() <= hay.len() && #[trigger] hay.subrange(
            at,
            at + needle.len(),
        ) == needle
}

/// A text occurs in whatever is built around it.
pub proof fn lemma_occurs_in_middle(before: Seq<char>, needle: Seq<char>, after: Seq<char>)
    ensures
        occurs_in(needle, before + needle + after),
{
    let hay = before + needle + after;
    let at = before.len() as int;
    assert(hay.subrange(at, at + needle.len()) =~= needle);
}

/// What occurs in a piece occurs in the whole.
pub proof fn lemma_occurs_in_wider(
    needle: Seq<char>,
    piece: Seq<char>,
    before: Seq<char>,
    after: Seq<char>,
)
    requires
        occurs_in(needle, piece),
    ensures
        occurs_in(needle, before + piece + after),
{
    let at = choose|at: int|
        0 <= at && at + needle.len() <= piece.len() && #[trigger] piece.subrange(
            at,
            at + needle.len(),
        ) == needle;
    let hay = before + piece + after;
    let shifted = before.len() + at;
    assert(hay.subrange(shifted, shifted + needle.len()) =~= piece.subrange(
        at,
        at + needle.len(),
    ));
}

/// What occurs in a text that occurs in another occurs in that other.
pub proof fn lemma_occurs_in_chain(needle: Seq<char>, piece: Seq<char>, hay: Seq<char>)
    requires
        occurs_in(needle, piece),
        occurs_in(piece, hay),
    ensures
        occurs_in(needle, hay),
{
    let inner = choose|at: int|
        0 <= at && at + needle.len() <= piece.len() && #[trigger] piece.subrange(
            at,
            at + needle.len(),
        ) == needle;
    let outer = choose|at: int|
        0 <= at && at + piece.len() <= hay.len() && #[trigger] hay.subrange(at, at + piece.len())
            == piece;
    let at = outer + inner;
    assert(hay.subrange(at, at + needle.len()) =~= hay.subrange(
        outer,
        outer + piece.len(),
    ).subrange(inner, inner + needle.len()));
}

/// Every part occurs in the parts wrapped.
pub proof fn lemma_part_occurs_in_wrapped(
    parts: Seq<Seq<char>>,
    before: Seq<char>,
    after: Seq<char>,
    k: int,
)
    requires
        0 <= k < parts.len(),
    ensures
        occurs_in(parts[k], wrapped(parts, before, after)),
    decreases parts.len(),
{
    let front = wrapped(parts.drop_last(), before, after);
    if k == parts.len() - 1 {
        lemma_occurs_in_middle(front + before, parts.last(), after);
    } else {
        lemma_part_occurs_in_wrapped(parts.drop_last(), before, after, k);
        lemma_occurs_in_wider(parts[k], front, Seq::empty(), before + parts.last() + after);
        assert(Seq::<char>::empty() + front + (before + parts.last() + after) =~= wrapped(
            parts,
            before,
            after,
        ));
    }
}

/// Every part occurs in the parts joined.
pub proof fn lemma_part_occurs_in_joined(parts: Seq<Seq<char>>, sep: Seq<char>, k: int)
    requires
        0 <= k < parts.len(),
    ensures
        occurs_in(parts[k], joined(parts, sep)),
{
    let rest = prefixed(parts.drop_first(), sep);
    if k == 0 {
        lemma_occurs_in_middle(Seq::empty(), parts[0], rest);
        assert(Seq::<char>::empty() + parts[0] + rest =~= joined(parts, sep));
    } else {
        lemma_part_occurs_in_wrapped(parts.drop_first(), sep, Seq::empty(), k - 1);
        lemma_occurs_in_wider(parts[k], rest, parts[0], Seq::empty());
        assert(parts[0] + rest + Seq::<char>::empty() =~= joined(parts, sep));
    }
}

/// Wrapping two lists one after the other is wrapping the one list that they
/// make.
pub proof fn lemma_wrapped_concat(
    left: Seq<Seq<char>>,
    right: Seq<Seq<char>>,
    before: Seq<char>,
    after: Seq<char>,
)
    ensures
        wrapped(left + right, before, after) == wrapped(left, before, after) + wrapped(
            right,
            before,
            after,
        ),
    decreases right.len(),
{
    if right.len() == 0 {
        assert(left + right =~= left);
        assert(wrapped(left, before, after) + wrapped(right, before, after) =~= wrapped(
            left,
            before,
            after,
        ));
    } else {
        lemma_wrapped_concat(left, right.drop_last(), before, after);
        assert((left + right).drop_last() =~= left + right.drop_last());
        assert((left + right).last() == right.last());
        assert(wrapped(left, before, after) + (wrapped(right.drop_last(), before, after) + before
            + right.last() + after) =~= (wrapped(left, before, after) + wrapped(
            right.drop_last(),
            before,
            after,
        )) + before + right.last() + after);
    }
}

/// Wrapping a list of one part.
pub proof fn lemma_wrapped_one(part: Seq<char>, before: Seq<char>, after: Seq<char>)
    ensures
        wrapped(seq![part], before, after) == before + part + after,
{
    assert(seq![part].drop_last() =~= Seq::<Seq<char>>::empty());
    assert(wrapped(Seq::<Seq<char>>::empty(), before, after) =~= Seq::<char>::empty());
    assert(wrapped(seq![part], before, after) =~= before + part + after);
}

/// Prefixing a list that ends in `last` is prefixing what comes before it and
/// then `last`.
pub proof fn lemma_prefixed_push(parts: Seq<Seq<char>>, last: Seq<char>, sep: Seq<char>)
    ensures
        prefixed(parts.push(last), sep) == prefixed(parts, sep) + sep + last,
{
    assert(parts.push(last).drop_last() =~= parts);
    assert(prefixed(parts.push(last), sep) =~= prefixed(parts, sep) + sep + last);
}

/// Whether entry `i` of `list` has occurred at an earlier place of it.
pub open spec fn repeats(list: Seq<Seq<char>>, i: int) -> bool {
    exists|j: int| 0 <= j < i && #[trigger] list[j] == list[i]
}

/// A copy of `text` that owns its characters.
pub fn owned(text: &str) -> (r: String)
    ensures
        r@ == text@,
{
    String::from_str(text)
}

/// A copy of every string of `list`, in order.
pub fn copy_texts(list: &Vec<String>) -> (r: Vec<String>)
    ensures
        texts(r@) == texts(list@),
{
    let mut out: Vec<String> = Vec::new();
    let mut i: usize = 0;
    while i < list.len()
        invariant
            i <= list.len(),
            out@.len() == i,
            forall|k: int| 0 <= k < i ==> out@[k]@ == list@[k]@,
        decreases list.len() - i,
    {
        out.push(list[i].clone());
        i += 1;
    }
    assert(texts(out@) =~= texts(list@));
    out
}

/// Whether one of the strings of `list` holds `text`.
pub fn holds(list: &Vec<String>, text: &String) -> (r: bool)
    ensures
        r == texts(list@).contains(text@),
{
    let mut i: usize = 0;
    while i < list.len()
        invariant
            i <= list.len(),
            forall|k: int| 0 <= k < i ==> list@[k]@ != text@,
        decreases list.len() - i,
    {
        if list[i] == *text {
            assert(texts(list@)[i as int] == text@);
            return true;
        }
        i += 1;
    }
    assert forall|k: int| 0 <= k < texts(list@).len() implies texts(list@)[k] != text@ by {
        assert(texts(list@)[k] == list@[k]@);
    }
    false
}

/// Whether the string at place `i` of `list` stands at an earlier place too.
pub fn seen_before(list: &Vec<String>, i: usize) -> (r: bool)
    requires
        i < list.len(),
    ensures
        r == repeats(texts(list@), i as int),
{
    let mut j: usize = 0;
    while j < i
        invariant
            j <= i,
            i < list.len(),
            forall|k: int| 0 <= k < j ==> list@[k]@ != list@[i as int]@,
        decreases i - j,
    {
        if list[j] == list[i] {
            assert(texts(list@)[j as int] == texts(list@)[i as int]);
            return true;
        }
        j += 1;
    }
    let ghost all = texts(list@);
    let ghost place = i as int;
    assert forall|k: int| 0 <= k < place implies #[trigger] all[k] != all[place] by {
        assert(all[k] == list@[k]@);
    }
    false
}

/// Appends to `out` every string of `parts` with `before` in front of it and
/// `after` behind it.
pub fn append_wrapped(out: &mut String, parts: &Vec<String>, before: &str, after: &str)
    ensures
        final(out)@ == old(out)@ + wrapped(texts(parts@), before@, after@),
{
    let ghost all = texts(parts@);
    let mut i: usize = 0;
    assert(all.take(0) =~= Seq::<Seq<char>>::empty());
    assert(out@ =~= old(out)@ + wrapped(all.take(0), before@, after@));
    while i < parts.len()
        invariant
            i <= parts.len(),
            all == texts(parts@),
            out@ == old(out)@ + wrapped(all.take(i as int), before@, after@),
        decreases parts.len() - i,
    {
        out.append(before);
        out.append(parts[i].as_str());
        out.append(after);
        proof {
            assert(all.take(i + 1).drop_last() =~= all.take(i as int));
            assert(all.take(i + 1).last() == parts@[i as int]@);
            assert(out@ =~= old(out)@ + wrapped(all.take(i + 1), before@, after@));
        }
        i += 1;
    }
    assert(all.take(parts.len() as int) =~= all);
}

/// Appends `word` and a space to `out`, or nothing where `word` is empty.
pub fn append_spaced(out: &mut String, word: &str)
    ensures
        final(out)@ == old(out)@ + spaced(word@),
{
    if word.is_empty() {
        assert(out@ =~= old(out)@ + spaced(word@));
    } else {
        out.append(word);
        out.append(" ");
        assert(out@ =~= old(out)@ + spaced(word@));
    }
}

/// Appends `piece` to `out`, `n` times.
pub fn append_repeated(out: &mut String, piece: &str, n: usize)
    ensures
        final(out)@ == old(out)@ + repeated(piece@, n as nat),
{
    let mut i: usize = 0;
    assert(out@ =~= old(out)@ + repeated(piece@, 0));
    while i < n
        invariant
            i <= n,
            out@ == old(out)@ + repeated(piece@, i as nat),
        decreases n - i,
    {
        out.append(piece);
        assert(out@ =~= old(out)@ + repeated(piece@, (i + 1) as nat));
        i += 1;
    }
}

/// Appends to `out` the strings of `parts` with `sep` between neighbours.
pub fn append_joined(out: &mut String, parts: &Vec<String>, sep: &str)
    ensures
        final(out)@ == old(out)@ + joined(texts(parts@), sep@),
{
    let ghost all = texts(parts@);
    if parts.len() == 0 {
        assert(out@ =~= old(out)@ + joined(all, sep@));
        return ;
    }
    out.append(parts[0].as_str());
    let mut i: usize = 1;
    assert(all.drop_first().take(0) =~= Seq::<Seq<char>>::empty());
    assert(out@ =~= old(out)@ + all[0] + prefixed(all.drop_first().take(0), sep@));
    while i < parts.len()
        invariant
            1 <= i <= parts.len(),
            all == texts(parts@),
            out@ == old(out)@ + all[0] + prefixed(all.drop_first().take(i - 1), sep@),
        decreases parts.len() - i,
    {
        out.append(sep);
        out.append(parts[i].as_str());
        proof {
            let rest = all.drop_first();
            assert(rest.take(i as int) =~= rest.take(i - 1).push(parts@[i as int]@));
            lemma_prefixed_push(rest.take(i - 1), parts@[i as int]@, sep@);
            assert(out@ =~= old(out)@ + all[0] + prefixed(rest.take(i as int), sep@));
        }
        i += 1;
    }
    proof {
        let rest = all.drop_first();
        assert(rest.take(parts.len() - 1) =~= rest);
        assert(out@ =~= old(out)@ + joined(all, sep@));
    }
}

} // verus!
