use vstd::prelude::*;

use crate::feed::{feeds_view, Feed, FeedView};
use crate::opml::{find_group, groups_view, lemma_group_index_found, spec_group_index};

verus! {

/// The interaction modes of the interactive list browser.
pub enum AppMode {
    Normal,
    Category,
    Feed,
    Dedup,
}

/// An input event for the interactive browser: a key, or a timer tick.
pub enum Event<I> {
    Input(I),
    Tick,
}

/// Where a list selection lands after moving one entry down: it wraps to the
/// top past the last entry, and an empty selection starts at the top.
pub open spec fn spec_next_index(len: int, selected: Option<usize>) -> int {
    match selected {
        Some(i) => if i >= len - 1 {
            0
        } else {
            i + 1
        },
        None => 0,
    }
}

/// Where a list selection lands after moving one entry up: it wraps to the
/// bottom before the first entry, and an empty selection starts at the top.
pub open spec fn spec_previous_index(len: int, selected: Option<usize>) -> int {
    match selected {
        Some(i) => if i == 0 {
            if len == 0 {
                0
            } else {
                len - 1
            }
        } else {
            i - 1
        },
        None => 0,
    }
}

/// Moves a list selection one entry down, wrapping at the end.
pub fn next_index(len: usize, selected: Option<usize>) -> (r: usize)
    ensures
        r == spec_next_index(len as int, selected),
{
    match selected {
        Some(i) => if len == 0 || i >= len - 1 {
            0
        } else {
            i + 1
        },
        None => 0,
    }
}

/// Moves a list selection one entry up, wrapping at the start.
pub fn previous_index(len: usize, selected: Option<usize>) -> (r: usize)
    ensures
        r == spec_previous_index(len as int, selected),
{
    match selected {
        Some(i) => if i == 0 {
            if len == 0 {
                0
            } else {
                len - 1
            }
        } else {
            i - 1
        },
        None => 0,
    }
}

/// A feed added to the group of each of its category names, in order.
pub open spec fn spec_cat_add(
    groups: Seq<(Seq<char>, Seq<FeedView>)>,
    f: FeedView,
    cats: Seq<Seq<char>>,
) -> Seq<(Seq<char>, Seq<FeedView>)>
    decreases cats.len(),
{
    if cats.len() == 0 {
        groups
    } else {
        let g = spec_cat_add(groups, f, cats.drop_last());
        match spec_group_index(g, cats.last(), 0) {
            Some(k) => g.update(k, (cats.last(), g[k].1.push(f))),
            None => g.push((cats.last(), seq![f])),
        }
    }
}

/// Feeds grouped under each category name they carry (one feed can appear
/// in several groups), names in order of first appearance.
pub open spec fn spec_categorize(feeds: Seq<FeedView>) -> Seq<(Seq<char>, Seq<FeedView>)>
    decreases feeds.len(),
{
    if feeds.len() == 0 {
        Seq::empty()
    } else {
        spec_cat_add(spec_categorize(feeds.drop_last()), feeds.last(), feeds.last().category)
    }
}

/// Groups feeds under each category name they carry, for the category pane
/// of the interactive browser.
#[verifier::loop_isolation(false)]
pub fn categorize_feeds(feeds: &Vec<Feed>) -> (r: Vec<(String, Vec<Feed>)>)
    ensures
        groups_view(r@) == spec_categorize(feeds_view(feeds@)),
{
    let ghost fv = feeds_view(feeds@);
    let mut groups: Vec<(String, Vec<Feed>)> = Vec::new();
    proof {
        assert(fv.len() == feeds@.len());
        assert(groups_view(groups@) =~= spec_categorize(fv.take(0)));
    }
    let n = feeds.len();
    let mut i: usize = 0;
    while i < n
        invariant
            0 <= i <= n,
            groups_view(groups@) == spec_categorize(fv.take(i as int)),
        decreases n - i,
    {
        proof {
            assert(fv[i as int] == feeds@[i as int]@);
            assert(fv.take(i + 1).drop_last() =~= fv.take(i as int));
        }
        let cats = &feeds[i].category;
        let ghost catv = fv[i as int].category;
        proof {
            assert(catv == cats.deep_view());
            assert(catv.len() == cats@.len());
        }
        let m = cats.len();
        let mut j: usize = 0;
        while j < m
            invariant
                0 <= j <= m,
                groups_view(groups@) == spec_cat_add(
                    spec_categorize(fv.take(i as int)),
                    fv[i as int],
                    catv.take(j as int),
                ),
            decreases m - j,
        {
            let ghost g = groups_view(groups@);
            proof {
                assert(catv[j as int] == cats@[j as int]@);
                assert(catv.take(j + 1).drop_last() =~= catv.take(j as int));
                assert(g.len() == groups@.len());
            }
            match find_group(&groups, cats[j].as_str()) {
                Some(k) => {
                    proof {
                        lemma_group_index_found(g, catv[j as int], 0);
                        assert(g[k as int] == (groups@[k as int].0@, feeds_view(
                            groups@[k as int].1@,
                        )));
                    }
                    let ghost old_groups = groups@;
                    let mut pair = groups.remove(k);
                    pair.1.push(feeds[i].duplicate());
                    groups.insert(k, pair);
                    proof {
                        let target = g.update(
                            k as int,
                            (catv[j as int], g[k as int].1.push(fv[i as int])),
                        );
                        assert(groups@.len() == old_groups.len());
                        assert forall|t: int| 0 <= t < groups@.len() implies groups_view(
                            groups@,
                        )[t] == target[t] by {
                            if t != k as int {
                                assert(groups@[t] == old_groups[t]);
                            } else {
                                assert(feeds_view(groups@[t].1@) =~= g[k as int].1.push(
                                    fv[i as int],
                                ));
                            }
                        }
                        assert(groups_view(groups@) =~= target);
                    }
                },
                None => {
                    let group_feeds: Vec<Feed> = vec![feeds[i].duplicate()];
                    proof {
                        assert(feeds_view(group_feeds@) =~= seq![fv[i as int]]);
                    }
                    groups.push((cats[j].clone(), group_feeds));
                    proof {
                        assert(groups_view(groups@) =~= g.push((catv[j as int], seq![
                            fv[i as int],
                        ])));
                    }
                },
            }
            proof {
                assert(groups_view(groups@) =~= spec_cat_add(
                    spec_categorize(fv.take(i as int)),
                    fv[i as int],
                    catv.take(j + 1),
                ));
            }
            j = j + 1;
        }
        proof {
            assert(catv.take(m as int) =~= catv);
        }
        i = i + 1;
    }
    proof {
        assert(fv.take(n as int) =~= fv);
    }
    groups
}

} // verus!
