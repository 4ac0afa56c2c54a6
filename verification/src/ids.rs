//! Lists of ids: each once, some left out, or one to a line.
use crate::text::{chars_of, is_white_space, is_whitespace, texts, trimmed};
use vstd::hash_set::StringHashSet;
use vstd::prelude::*;

verus! {

/// The ids of a list, each where it occurs first.
pub open spec fn distinct_ids(ids: Seq<Seq<char>>) -> Seq<Seq<char>>
    decreases ids.len(),
{
    if ids.len() == 0 {
        Seq::empty()
    } else {
        let earlier = distinct_ids(ids.drop_last());
        if earlier.contains(ids.last()) {
            earlier
        } else {
            earlier.push(ids.last())
        }
    }
}

/// The ids of a list that are not excluded, in their order.
pub open spec fn ids_without(ids: Seq<Seq<char>>, excluded: Seq<Seq<char>>) -> Seq<Seq<char>>
    decreases ids.len(),
{
    if ids.len() == 0 {
        Seq::empty()
    } else {
        let earlier = ids_without(ids.drop_last(), excluded);
        if excluded.contains(ids.last()) {
            earlier
        } else {
            earlier.push(ids.last())
        }
    }
}

/// The lines of a text: what stands between its line feeds.
pub open spec fn lines(text: Seq<char>) -> Seq<Seq<char>>
    decreases text.len(),
{
    if text.len() == 0 {
        seq![Seq::empty()]
    } else {
        let earlier = lines(text.drop_last());
        if text.last() == '\n' {
            earlier.push(Seq::empty())
        } else {
            earlier.drop_last().push(earlier.last().push(text.last()))
        }
    }
}

/// The texts without the white space around them, those that are nothing else left out.
pub open spec fn trimmed_nonempty(texts: Seq<Seq<char>>) -> Seq<Seq<char>>
    decreases texts.len(),
{
    if texts.len() == 0 {
        Seq::empty()
    } else {
        let earlier = trimmed_nonempty(texts.drop_last());
        if trimmed(texts.last()).len() == 0 {
            earlier
        } else {
            earlier.push(trimmed(texts.last()))
        }
    }
}

/// The ids of a list, each where it occurs first.
pub fn distinct(ids: &Vec<String>) -> (kept: Vec<String>)
    ensures
        texts(kept@) == distinct_ids(texts(ids@)),
        texts(kept@).no_duplicates(),
        forall|id: Seq<char>| texts(kept@).contains(id) <==> texts(ids@).contains(id),
{
    proof {
        law_distinct_keeps_each_once(texts(ids@));
    }
    let mut seen = StringHashSet::new();
    let mut kept: Vec<String> = Vec::new();
    for i in 0..ids.len()
        invariant
            texts(kept@) == distinct_ids(texts(ids@).take(i as int)),
            seen@ == distinct_ids(texts(ids@).take(i as int)).to_set(),
    {
        let ghost before = texts(kept@);
        assert(texts(ids@).take(i + 1).drop_last() == texts(ids@).take(i as int));
        if seen.insert(ids[i].clone()) {
            kept.push(ids[i].clone());
            assert(texts(kept@) =~= before.push(ids@[i as int]@));
            assert(seen@ =~= before.push(ids@[i as int]@).to_set()) by {
                lemma_push_to_set(before, ids@[i as int]@);
            }
        } else {
            assert(seen@ =~= before.to_set());
        }
    }
    assert(texts(ids@).take(ids@.len() as int) == texts(ids@));
    kept
}

/// The ids of a list that are not excluded, in their order.
pub fn without(ids: &Vec<String>, excluded: &Vec<String>) -> (kept: Vec<String>)
    ensures
        texts(kept@) == ids_without(texts(ids@), texts(excluded@)),
        forall|id: Seq<char>|
            texts(kept@).contains(id) <==> texts(ids@).contains(id) && !texts(excluded@).contains(id),
{
    proof {
        law_without_leaves_the_rest(texts(ids@), texts(excluded@));
    }
    let mut unwanted = StringHashSet::new();
    for i in 0..excluded.len()
        invariant
            unwanted@ == texts(excluded@).take(i as int).to_set(),
    {
        unwanted.insert(excluded[i].clone());
        proof {
            lemma_push_to_set(texts(excluded@).take(i as int), excluded@[i as int]@);
            assert(texts(excluded@).take(i + 1) =~= texts(excluded@).take(i as int).push(
                excluded@[i as int]@,
            ));
        }
    }
    assert(texts(excluded@).take(excluded@.len() as int) == texts(excluded@));
    let mut kept: Vec<String> = Vec::new();
    for i in 0..ids.len()
        invariant
            unwanted@ == texts(excluded@).to_set(),
            texts(kept@) == ids_without(texts(ids@).take(i as int), texts(excluded@)),
    {
        let ghost before = texts(kept@);
        assert(texts(ids@).take(i + 1).drop_last() == texts(ids@).take(i as int));
        if !unwanted.contains(ids[i].as_str()) {
            kept.push(ids[i].clone());
            assert(texts(kept@) =~= before.push(ids@[i as int]@));
        }
    }
    assert(texts(ids@).take(ids@.len() as int) == texts(ids@));
    kept
}

proof fn lemma_push_to_set(ids: Seq<Seq<char>>, id: Seq<char>)
    ensures
        ids.push(id).to_set() =~= ids.to_set().insert(id),
{
    let pushed = ids.push(id);
    assert forall|x: Seq<char>| pushed.to_set().contains(x) <==> ids.to_set().insert(id).contains(
        x,
    ) by {
        if ids.contains(x) {
            let i = choose|i: int| 0 <= i < ids.len() && ids[i] == x;
            assert(pushed[i] == x);
        }
        assert(pushed[ids.len() as int] == id);
    }
}

/// Adds the characters from `start` to `end`, without the white space around them, to `ids`,
/// where any are left.
fn push_trimmed(ids: &mut Vec<String>, chars: &Vec<char>, start: usize, end: usize)
    requires
        start <= end <= chars@.len(),
    ensures
        ({
            let id = trimmed(chars@.subrange(start as int, end as int));
            texts(final(ids)@) == if id.len() == 0 {
                texts(old(ids)@)
            } else {
                texts(old(ids)@).push(id)
            }
        }),
{
    let ghost line = chars@.subrange(start as int, end as int);
    let mut from: usize = start;
    while from < end && is_whitespace(chars[from])
        invariant
            start <= from <= end <= chars@.len(),
            trimmed(line) == trimmed(chars@.subrange(from as int, end as int)),
        decreases end - from,
    {
        assert(chars@.subrange(from as int, end as int).drop_first() == chars@.subrange(
            from + 1,
            end as int,
        ));
        from = from + 1;
    }
    let mut to: usize = end;
    while from < to && is_whitespace(chars[to - 1])
        invariant
            from <= to <= chars@.len(),
            from < to ==> !is_white_space(chars@[from as int]),
            trimmed(line) == trimmed(chars@.subrange(from as int, to as int)),
        decreases to,
    {
        assert(chars@.subrange(from as int, to as int).drop_last() == chars@.subrange(
            from as int,
            to - 1,
        ));
        to = to - 1;
    }
    if from < to {
        let mut id = String::new();
        let mut i: usize = from;
        while i < to
            invariant
                from <= i <= to <= chars@.len(),
                id@ == chars@.subrange(from as int, i as int),
            decreases to - i,
        {
            id.push(chars[i]);
            i = i + 1;
        }
        ids.push(id);
        assert(texts(ids@) =~= texts(old(ids)@).push(trimmed(line)));
    }
}

/// The ids of a text that lists one to a line.
pub fn listed_ids(text: &str) -> (ids: Vec<String>)
    ensures
        texts(ids@) == trimmed_nonempty(lines(text@)),
        forall|i: int|
            0 <= i < lines(text@).len() && trimmed(#[trigger] lines(text@)[i]).len() > 0
                ==> texts(ids@).contains(trimmed(lines(text@)[i])),
        forall|k: int|
            0 <= k < ids@.len() ==> exists|i: int|
                0 <= i < lines(text@).len() && trimmed(#[trigger] lines(text@)[i]) == (
                #[trigger] ids@[k])@ && ids@[k]@.len() > 0,
{
    proof {
        law_every_line_gives_its_id(lines(text@));
    }
    let chars = chars_of(text);
    let mut ids: Vec<String> = Vec::new();
    let mut start: usize = 0;
    let ghost mut ended: Seq<Seq<char>> = Seq::empty();
    assert(chars@.subrange(0, 0) =~= Seq::<char>::empty());
    assert(lines(chars@.take(0)) =~= ended.push(chars@.subrange(0, 0)));
    assert(texts(ids@) =~= Seq::<Seq<char>>::empty());
    for i in 0..chars.len()
        invariant
            start <= i,
            lines(chars@.take(i as int)) == ended.push(chars@.subrange(start as int, i as int)),
            texts(ids@) == trimmed_nonempty(ended),
    {
        let ghost line = chars@.subrange(start as int, i as int);
        assert(chars@.take(i + 1).drop_last() == chars@.take(i as int));
        if chars[i] == '\n' {
            push_trimmed(&mut ids, &chars, start, i);
            proof {
                assert(ended.push(line).drop_last() == ended);
                ended = ended.push(line);
            }
            start = i + 1;
            assert(chars@.subrange(start as int, i + 1) =~= Seq::<char>::empty());
        } else {
            assert(ended.push(line).drop_last() == ended);
            assert(chars@.subrange(start as int, i + 1) =~= line.push(chars@[i as int]));
        }
    }
    assert(chars@.take(chars@.len() as int) == chars@);
    let ghost line = chars@.subrange(start as int, chars@.len() as int);
    push_trimmed(&mut ids, &chars, start, chars.len());
    assert(ended.push(line).drop_last() == ended);
    assert forall|k: int| 0 <= k < ids@.len() implies exists|i: int|
        0 <= i < lines(text@).len() && trimmed(#[trigger] lines(text@)[i]) == (#[trigger] ids@[k])@
            && ids@[k]@.len() > 0 by {
        assert(trimmed_nonempty(lines(text@))[k] == ids@[k]@);
    }
    ids
}

/// A list made distinct holds the ids of the list and no others, and each of them once.
pub proof fn law_distinct_keeps_each_once(ids: Seq<Seq<char>>)
    ensures
        distinct_ids(ids).no_duplicates(),
        forall|id: Seq<char>| distinct_ids(ids).contains(id) <==> ids.contains(id),
    decreases ids.len(),
{
    if ids.len() > 0 {
        let earlier = distinct_ids(ids.drop_last());
        law_distinct_keeps_each_once(ids.drop_last());
        assert forall|id: Seq<char>| distinct_ids(ids).contains(id) <==> ids.contains(id) by {
            assert(ids == ids.drop_last().push(ids.last()));
            lemma_push_to_set(ids.drop_last(), ids.last());
            lemma_push_to_set(earlier, ids.last());
            assert(ids.to_set().contains(id) <==> ids.drop_last().to_set().contains(id) || id
                == ids.last());
            assert(earlier.push(ids.last()).to_set().contains(id) <==> earlier.to_set().contains(id)
                || id == ids.last());
        }
    }
}

/// What is left of a list holds exactly its ids that are not excluded, and none twice where the
/// list held none twice.
pub proof fn law_without_leaves_the_rest(ids: Seq<Seq<char>>, excluded: Seq<Seq<char>>)
    ensures
        forall|id: Seq<char>|
            ids_without(ids, excluded).contains(id) <==> ids.contains(id) && !excluded.contains(id),
        ids.no_duplicates() ==> ids_without(ids, excluded).no_duplicates(),
    decreases ids.len(),
{
    if ids.len() > 0 {
        let earlier = ids_without(ids.drop_last(), excluded);
        law_without_leaves_the_rest(ids.drop_last(), excluded);
        assert(ids == ids.drop_last().push(ids.last()));
        assert forall|id: Seq<char>|
            ids_without(ids, excluded).contains(id) <==> ids.contains(id) && !excluded.contains(
                id,
            ) by {
            lemma_push_to_set(ids.drop_last(), ids.last());
            lemma_push_to_set(earlier, ids.last());
            assert(ids.to_set().contains(id) <==> ids.drop_last().to_set().contains(id) || id
                == ids.last());
            assert(earlier.push(ids.last()).to_set().contains(id) <==> earlier.to_set().contains(id)
                || id == ids.last());
        }
        if ids.no_duplicates() {
            assert(ids.drop_last().no_duplicates());
            assert(!ids.drop_last().contains(ids.last()));
        }
    }
}

/// What is added to a list does not change what is kept of it so far: the ids stay in the order in
/// which each occurred first.
pub proof fn law_distinct_keeps_the_first_order(first: Seq<Seq<char>>, more: Seq<Seq<char>>)
    ensures
        distinct_ids(first).len() <= distinct_ids(first + more).len(),
        distinct_ids(first + more).take(distinct_ids(first).len() as int) == distinct_ids(first),
    decreases more.len(),
{
    let kept = distinct_ids(first);
    if more.len() == 0 {
        assert(first + more =~= first);
        assert(kept.take(kept.len() as int) =~= kept);
    } else {
        law_distinct_keeps_the_first_order(first, more.drop_last());
        assert((first + more).drop_last() =~= first + more.drop_last());
        assert(distinct_ids(first + more).take(kept.len() as int) =~= distinct_ids(
            first + more.drop_last(),
        ).take(kept.len() as int));
    }
}

/// Each id of a list stays or goes for itself: two lists lose together what each of them loses, and
/// keep their order.
pub proof fn law_without_goes_id_by_id(
    first: Seq<Seq<char>>,
    second: Seq<Seq<char>>,
    id: Seq<char>,
    excluded: Seq<Seq<char>>,
)
    ensures
        ids_without(first + second, excluded) == ids_without(first, excluded) + ids_without(
            second,
            excluded,
        ),
        !excluded.contains(id) ==> ids_without(seq![id], excluded) == seq![id],
        excluded.contains(id) ==> ids_without(seq![id], excluded).len() == 0,
    decreases second.len(),
{
    reveal_with_fuel(ids_without, 2);
    assert(seq![id].drop_last() =~= Seq::empty());
    assert(Seq::<Seq<char>>::empty().push(id) =~= seq![id]);
    if second.len() == 0 {
        assert(first + second =~= first);
        assert(ids_without(first, excluded) + ids_without(second, excluded) =~= ids_without(
            first,
            excluded,
        ));
    } else {
        law_without_goes_id_by_id(first, second.drop_last(), id, excluded);
        assert((first + second).drop_last() =~= first + second.drop_last());
        assert(ids_without(first + second, excluded) =~= ids_without(first, excluded)
            + ids_without(second, excluded));
    }
}

/// A line feed ends one line and begins another: the lines of two texts with a line feed between
/// them are those of the first and then those of the second.
pub proof fn law_lines_split_at_line_feeds(first: Seq<char>, second: Seq<char>)
    ensures
        lines(first).len() > 0,
        lines(first + seq!['\n'] + second) == lines(first) + lines(second),
    decreases first.len(), second.len(),
{
    lemma_lines_nonempty(first);
    lemma_lines_nonempty(second);
    let all = first + seq!['\n'] + second;
    if second.len() == 0 {
        assert(all.drop_last() =~= first);
        assert(lines(all) =~= lines(first) + lines(second));
    } else {
        let earlier = second.drop_last();
        law_lines_split_at_line_feeds(first, earlier);
        lemma_lines_nonempty(earlier);
        assert(all.drop_last() =~= first + seq!['\n'] + earlier);
        assert(all.last() == second.last());
        let joined = lines(first) + lines(earlier);
        assert(joined.last() == lines(earlier).last());
        assert(joined.drop_last() =~= lines(first) + lines(earlier).drop_last());
        assert(lines(all) =~= lines(first) + lines(second));
    }
}

/// A text without a line feed is one line.
pub proof fn law_text_without_line_feed_is_one_line(text: Seq<char>)
    requires
        forall|i: int| 0 <= i < text.len() ==> #[trigger] text[i] != '\n',
    ensures
        lines(text) == seq![text],
    decreases text.len(),
{
    if text.len() == 0 {
        assert(text =~= Seq::empty());
    } else {
        let earlier = text.drop_last();
        assert forall|i: int| 0 <= i < earlier.len() implies #[trigger] earlier[i] != '\n' by {
            assert(text[i] != '\n');
        }
        law_text_without_line_feed_is_one_line(earlier);
        assert(text[text.len() - 1] != '\n');
        assert(seq![earlier].last() == earlier);
        assert(earlier.push(text.last()) =~= text);
        assert(lines(text) =~= seq![text]);
    }
}

proof fn lemma_lines_nonempty(text: Seq<char>)
    ensures
        lines(text).len() > 0,
    decreases text.len(),
{
    if text.len() > 0 {
        lemma_lines_nonempty(text.drop_last());
    }
}

/// Every text that is more than white space gives itself, trimmed, and nothing else is given.
pub proof fn law_every_line_gives_its_id(texts: Seq<Seq<char>>)
    ensures
        forall|i: int|
            0 <= i < texts.len() && trimmed(#[trigger] texts[i]).len() > 0 ==> trimmed_nonempty(
                texts,
            ).contains(trimmed(texts[i])),
        forall|k: int|
            0 <= k < trimmed_nonempty(texts).len() ==> exists|i: int|
                0 <= i < texts.len() && trimmed(#[trigger] texts[i]) == #[trigger] trimmed_nonempty(
                    texts,
                )[k] && trimmed_nonempty(texts)[k].len() > 0,
    decreases texts.len(),
{
    if texts.len() > 0 {
        let earlier = texts.drop_last();
        let given = trimmed_nonempty(texts);
        law_every_line_gives_its_id(earlier);
        assert forall|i: int|
            0 <= i < texts.len() && trimmed(#[trigger] texts[i]).len() > 0 implies given.contains(
            trimmed(texts[i]),
        ) by {
            if i < earlier.len() {
                assert(earlier[i] == texts[i]);
                let before = trimmed_nonempty(earlier);
                let k = choose|k: int| 0 <= k < before.len() && before[k] == trimmed(texts[i]);
                assert(given[k] == before[k]);
            } else {
                assert(given[given.len() - 1] == trimmed(texts[i]));
            }
        }
        assert forall|k: int| 0 <= k < given.len() implies exists|i: int|
            0 <= i < texts.len() && trimmed(#[trigger] texts[i]) == #[trigger] given[k]
                && given[k].len() > 0 by {
            let before = trimmed_nonempty(earlier);
            if k < before.len() {
                assert(given[k] == before[k]);
                let i = choose|i: int|
                    0 <= i < earlier.len() && trimmed(#[trigger] earlier[i]) == before[k]
                        && before[k].len() > 0;
                assert(texts[i] == earlier[i]);
            } else {
                assert(trimmed(texts[texts.len() - 1]) == given[k]);
            }
        }
    }
}

/// The texts of two lists give what those of the first give and then what those of the second
/// give: each for itself, in order, as often as it occurs.
pub proof fn law_lines_give_their_ids_in_order(
    first: Seq<Seq<char>>,
    second: Seq<Seq<char>>,
    text: Seq<char>,
)
    ensures
        trimmed_nonempty(first + second) == trimmed_nonempty(first) + trimmed_nonempty(second),
        trimmed(text).len() > 0 ==> trimmed_nonempty(seq![text]) == seq![trimmed(text)],
        trimmed(text).len() == 0 ==> trimmed_nonempty(seq![text]).len() == 0,
    decreases second.len(),
{
    reveal_with_fuel(trimmed_nonempty, 2);
    assert(seq![text].drop_last() =~= Seq::empty());
    assert(Seq::<Seq<char>>::empty().push(trimmed(text)) =~= seq![trimmed(text)]);
    if second.len() == 0 {
        assert(first + second =~= first);
        assert(trimmed_nonempty(first) + trimmed_nonempty(second) =~= trimmed_nonempty(first));
    } else {
        law_lines_give_their_ids_in_order(first, second.drop_last(), text);
        assert((first + second).drop_last() =~= first + second.drop_last());
        assert(trimmed_nonempty(first + second) =~= trimmed_nonempty(first) + trimmed_nonempty(
            second,
        ));
    }
}

} // verus!
