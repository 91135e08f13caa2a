//! Persisted configuration: the list of emote-set identifiers to fetch, the
//! "include global set" flag, and which chat-event source feeds the overlay.
//! Reading and writing the settings file is the host glue's concern; this
//! module holds the data and the pure decisions about it, in particular which
//! emote sets were added or removed by an edit.

use vstd::prelude::*;

verus! {

/// Which of the two chat-event sources the overlay listens to.
#[derive(Debug, Clone, Copy, PartialEq, Eq, Structural)]
pub enum ChatMessageSource {
    UnofficialExtras,
    ChatEvents,
}

/// One difference between two settings states.
#[derive(Debug, Clone, PartialEq, Eq, Hash)]
pub enum Diff<T> {
    Added(T),
    Removed(T),
}

/// Ghost image of a `Diff<String>`, for contracts.
pub ghost enum DiffView {
    Added(Seq<char>),
    Removed(Seq<char>),
}

pub open spec fn diff_view(d: Diff<String>) -> DiffView {
    match d {
        Diff::Added(s) => DiffView::Added(s@),
        Diff::Removed(s) => DiffView::Removed(s@),
    }
}

#[derive(Debug, Clone)]
pub struct Settings {
    pub emote_set_ids: Vec<String>,
    pub use_global: bool,
    pub chat_message_source: ChatMessageSource,
}

/// Whether `ids` holds an element whose characters are `id`.
pub open spec fn ids_contain(ids: Seq<Seq<char>>, id: Seq<char>) -> bool {
    exists|i: int| 0 <= i < ids.len() && ids[i] == id
}

/// The removals produced by going from `old_ids` to `new_ids`: every old id
/// that no longer occurs, in the old order.
pub open spec fn removed_ids(old_ids: Seq<Seq<char>>, new_ids: Seq<Seq<char>>) -> Seq<DiffView>
    decreases old_ids.len(),
{
    if old_ids.len() == 0 {
        Seq::empty()
    } else {
        let rest = removed_ids(old_ids.drop_first(), new_ids);
        if !ids_contain(new_ids, old_ids[0]) {
            seq![DiffView::Removed(old_ids[0])] + rest
        } else {
            rest
        }
    }
}

/// The additions produced by going from `old_ids` to `new_ids`: every new id
/// that did not occur before, in the new order.
pub open spec fn added_ids(old_ids: Seq<Seq<char>>, new_ids: Seq<Seq<char>>) -> Seq<DiffView>
    decreases new_ids.len(),
{
    if new_ids.len() == 0 {
        Seq::empty()
    } else {
        let rest = added_ids(old_ids, new_ids.drop_first());
        if !ids_contain(old_ids, new_ids[0]) {
            seq![DiffView::Added(new_ids[0])] + rest
        } else {
            rest
        }
    }
}

/// Whether a difference names the implicit "global" id.
pub open spec fn is_global_entry(d: DiffView) -> bool {
    match d {
        DiffView::Added(id) => id == "global"@,
        DiffView::Removed(id) => id == "global"@,
    }
}

/// A difference list with every entry for the implicit "global" id dropped.
pub open spec fn drop_global(s: Seq<DiffView>) -> Seq<DiffView>
    decreases s.len(),
{
    if s.len() == 0 {
        Seq::empty()
    } else {
        let rest = drop_global(s.drop_first());
        if is_global_entry(s[0]) {
            rest
        } else {
            seq![s[0]] + rest
        }
    }
}

/// The whole difference between two settings states: removed set ids, then
/// added set ids, then the change of the global flag, expressed as an
/// addition or removal of the implicit "global" id. A flag change
/// supersedes any entry the id lists produced for the literal id "global",
/// so the result never both adds and removes it.
pub open spec fn settings_diff(
    old_ids: Seq<Seq<char>>,
    new_ids: Seq<Seq<char>>,
    old_global: bool,
    new_global: bool,
) -> Seq<DiffView> {
    let base = removed_ids(old_ids, new_ids) + added_ids(old_ids, new_ids);
    if old_global == new_global {
        base
    } else if new_global {
        drop_global(base).push(DiffView::Added("global"@))
    } else {
        drop_global(base).push(DiffView::Removed("global"@))
    }
}

impl Default for Settings {
    /// Fresh settings: no emote sets, the global set enabled, events taken
    /// from the unofficial-extras source.
    fn default() -> (r: Settings)
        ensures
            r.emote_set_ids@ =~= Seq::<String>::empty(),
            r.use_global == true,
            r.chat_message_source == ChatMessageSource::UnofficialExtras,
    {
        Settings {
            emote_set_ids: Vec::new(),
            use_global: true,
            chat_message_source: ChatMessageSource::UnofficialExtras,
        }
    }
}

/// Whether `ids` holds an element equal to `id`.
pub fn contains_id(ids: &Vec<String>, id: &String) -> (r: bool)
    ensures
        r == ids_contain(ids.deep_view(), id@),
{
    let mut i: usize = 0;
    while i < ids.len()
        invariant
            i <= ids@.len(),
            ids.deep_view().len() == ids@.len(),
            forall|j: int| 0 <= j < ids@.len() ==> ids.deep_view()[j] == #[trigger] ids@[j]@,
            forall|j: int| 0 <= j < i ==> #[trigger] ids@[j]@ != id@,
        decreases ids@.len() - i,
    {
        if ids[i].eq(id) {
            assert(ids.deep_view()[i as int] == id@);
            return true;
        }
        i += 1;
    }
    false
}

impl Settings {
    /// The state a fresh overlay starts from, before the persisted file (an
    /// outside concern) has been read.
    pub fn get() -> (r: Settings)
        ensures
            r.emote_set_ids@ =~= Seq::<String>::empty(),
            r.use_global == true,
            r.chat_message_source == ChatMessageSource::UnofficialExtras,
    {
        Settings::default()
    }

    /// Every set id of `self` that `new` no longer names becomes a removal,
    /// every id new to `new` an addition, and a change of the global flag an
    /// addition or removal of the implicit "global" id.
    pub fn changes(&self, new: &Settings) -> (d: Vec<Diff<String>>)
        ensures
            d@.map_values(|x: Diff<String>| diff_view(x)) == settings_diff(
                self.emote_set_ids.deep_view(),
                new.emote_set_ids.deep_view(),
                self.use_global,
                new.use_global,
            ),
    {
        let ghost old_ids = self.emote_set_ids.deep_view();
        let ghost new_ids = new.emote_set_ids.deep_view();
        let mut d: Vec<Diff<String>> = Vec::new();
        let mut i: usize = 0;
        assert(old_ids.skip(0) =~= old_ids);
        while i < self.emote_set_ids.len()
            invariant
                i <= self.emote_set_ids@.len(),
                old_ids == self.emote_set_ids.deep_view(),
                new_ids == new.emote_set_ids.deep_view(),
                old_ids.len() == self.emote_set_ids@.len(),
                forall|j: int|
                    0 <= j < old_ids.len() ==> old_ids[j] == #[trigger] self.emote_set_ids@[j]@,
                d@.map_values(|x: Diff<String>| diff_view(x)) + removed_ids(
                    old_ids.skip(i as int),
                    new_ids,
                ) == removed_ids(old_ids, new_ids),
            decreases self.emote_set_ids@.len() - i,
        {
            let ghost suffix = old_ids.skip(i as int);
            proof {
                assert(suffix.drop_first() =~= old_ids.skip(i + 1));
                assert(suffix[0] == old_ids[i as int]);
            }
            if !contains_id(&new.emote_set_ids, &self.emote_set_ids[i]) {
                let ghost pre = d@.map_values(|x: Diff<String>| diff_view(x));
                d.push(Diff::Removed(self.emote_set_ids[i].clone()));
                proof {
                    assert(d@.map_values(|x: Diff<String>| diff_view(x)) =~= pre + seq![
                        DiffView::Removed(old_ids[i as int]),
                    ]);
                    assert(pre + (seq![DiffView::Removed(old_ids[i as int])] + removed_ids(
                        old_ids.skip(i + 1),
                        new_ids,
                    )) =~= (pre + seq![DiffView::Removed(old_ids[i as int])]) + removed_ids(
                        old_ids.skip(i + 1),
                        new_ids,
                    ));
                }
            }
            i += 1;
        }
        proof {
            assert(old_ids.skip(old_ids.len() as int) =~= Seq::<Seq<char>>::empty());
            assert(d@.map_values(|x: Diff<String>| diff_view(x)) + Seq::<DiffView>::empty() =~= d@
                .map_values(|x: Diff<String>| diff_view(x)));
        }
        let ghost removed = removed_ids(old_ids, new_ids);
        let mut i: usize = 0;
        assert(new_ids.skip(0) =~= new_ids);
        while i < new.emote_set_ids.len()
            invariant
                i <= new.emote_set_ids@.len(),
                old_ids == self.emote_set_ids.deep_view(),
                new_ids == new.emote_set_ids.deep_view(),
                removed == removed_ids(old_ids, new_ids),
                new_ids.len() == new.emote_set_ids@.len(),
                forall|j: int|
                    0 <= j < new_ids.len() ==> new_ids[j] == #[trigger] new.emote_set_ids@[j]@,
                d@.map_values(|x: Diff<String>| diff_view(x)) + added_ids(
                    old_ids,
                    new_ids.skip(i as int),
                ) == removed + added_ids(old_ids, new_ids),
            decreases new.emote_set_ids@.len() - i,
        {
            let ghost suffix = new_ids.skip(i as int);
            proof {
                assert(suffix.drop_first() =~= new_ids.skip(i + 1));
                assert(suffix[0] == new_ids[i as int]);
            }
            if !contains_id(&self.emote_set_ids, &new.emote_set_ids[i]) {
                let ghost pre = d@.map_values(|x: Diff<String>| diff_view(x));
                d.push(Diff::Added(new.emote_set_ids[i].clone()));
                proof {
                    assert(d@.map_values(|x: Diff<String>| diff_view(x)) =~= pre + seq![
                        DiffView::Added(new_ids[i as int]),
                    ]);
                    assert(pre + (seq![DiffView::Added(new_ids[i as int])] + added_ids(
                        old_ids,
                        new_ids.skip(i + 1),
                    )) =~= (pre + seq![DiffView::Added(new_ids[i as int])]) + added_ids(
                        old_ids,
                        new_ids.skip(i + 1),
                    ));
                }
            }
            i += 1;
        }
        proof {
            assert(new_ids.skip(new_ids.len() as int) =~= Seq::<Seq<char>>::empty());
            assert(d@.map_values(|x: Diff<String>| diff_view(x)) + Seq::<DiffView>::empty() =~= d@
                .map_values(|x: Diff<String>| diff_view(x)));
        }
        if self.use_global != new.use_global {
            let g = String::from_str("global");
            let ghost base_all = d@;
            let ghost base_v = d@.map_values(|x: Diff<String>| diff_view(x));
            let n0 = d.len();
            let mut base = d;
            let mut kept: Vec<Diff<String>> = Vec::new();
            let mut taken: usize = 0;
            proof {
                assert(base_all.skip(0) =~= base_all);
                assert(base_v.skip(0) =~= base_v);
            }
            while base.len() > 0
                invariant
                    taken <= n0,
                    base_all.len() == n0,
                    base_v == base_all.map_values(|x: Diff<String>| diff_view(x)),
                    base_v.len() == n0,
                    base@ =~= base_all.skip(taken as int),
                    g@ == "global"@,
                    kept@.map_values(|x: Diff<String>| diff_view(x)) + drop_global(
                        base_v.skip(taken as int),
                    ) == drop_global(base_v),
                decreases base@.len(),
            {
                proof {
                    assert(base_all.skip(taken as int)[0] == base_all[taken as int]);
                    assert(base_all.skip(taken as int).drop_first() =~= base_all.skip(
                        taken as int + 1,
                    ));
                    assert(base_v.skip(taken as int)[0] == base_v[taken as int]);
                    assert(base_v.skip(taken as int).drop_first() =~= base_v.skip(taken as int + 1));
                    assert(base_v[taken as int] == diff_view(base_all[taken as int]));
                }
                let entry = base.remove(0);
                proof {
                    assert(base@ =~= base_all.skip(taken as int + 1));
                }
                let names_global = match &entry {
                    Diff::Added(s) => s.eq(&g),
                    Diff::Removed(s) => s.eq(&g),
                };
                proof {
                    assert(names_global == is_global_entry(diff_view(entry)));
                }
                if !names_global {
                    let ghost pre = kept@.map_values(|x: Diff<String>| diff_view(x));
                    kept.push(entry);
                    proof {
                        assert(kept@.map_values(|x: Diff<String>| diff_view(x)) =~= pre.push(
                            diff_view(entry),
                        ));
                        assert(pre + (seq![diff_view(entry)] + drop_global(
                            base_v.skip(taken as int + 1),
                        )) =~= kept@.map_values(|x: Diff<String>| diff_view(x)) + drop_global(
                            base_v.skip(taken as int + 1),
                        ));
                    }
                }
                taken += 1;
            }
            proof {
                assert(base_v.skip(n0 as int) =~= Seq::<DiffView>::empty());
                assert(kept@.map_values(|x: Diff<String>| diff_view(x)) + Seq::<DiffView>::empty()
                    =~= kept@.map_values(|x: Diff<String>| diff_view(x)));
            }
            d = kept;
            let ghost pre = d@.map_values(|x: Diff<String>| diff_view(x));
            if new.use_global {
                d.push(Diff::Added(String::from_str("global")));
                proof {
                    assert(d@.map_values(|x: Diff<String>| diff_view(x)) =~= pre.push(
                        DiffView::Added("global"@),
                    ));
                }
            } else {
                d.push(Diff::Removed(String::from_str("global")));
                proof {
                    assert(d@.map_values(|x: Diff<String>| diff_view(x)) =~= pre.push(
                        DiffView::Removed("global"@),
                    ));
                }
            }
        }
        d
    }
}

} // verus!
