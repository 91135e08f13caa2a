//! The emote-catalog data model: emote sets as the remote catalog source
//! describes them, and the pure decisions around them — which image file of
//! an emote to load, whether an emote is zero-width, which pages a refresh
//! fetches, how fetched pages merge, and the flattened view of a catalog
//! that the matcher scans. Fetching itself is network work and stays with
//! the host glue; it hands the results back in as plain values.

use vstd::prelude::*;

verus! {

/// The owner block of a catalog page; carried through, never interpreted.
#[derive(Debug, Clone)]
pub struct Owner {
    pub id: String,
    pub username: String,
    pub display_name: String,
    pub avatar_url: String,
    pub roles: Vec<String>,
}

/// The format tag of a candidate image file; formats the source may add
/// later fall into `Unknown`.
#[derive(Debug, Clone, Copy, PartialEq, Eq, Structural)]
pub enum FileFormat {
    Avif,
    Webp,
    Gif,
    Png,
    Unknown,
}

/// One candidate image file of an emote.
#[derive(Debug, Clone)]
pub struct File {
    pub name: String,
    pub static_name: String,
    pub width: u32,
    pub height: u32,
    pub frame_count: u32,
    pub size: u32,
    pub format: FileFormat,
}

/// The host block of an emote: a protocol-less base URL and the candidate
/// files under it.
#[derive(Debug, Clone)]
pub struct Host {
    pub url: String,
    pub files: Vec<File>,
}

/// The inner data block of an emote.
#[derive(Debug, Clone)]
pub struct EmoteData {
    pub id: String,
    pub name: String,
    pub state: Vec<String>,
    pub listed: bool,
    pub animated: bool,
    pub owner: Owner,
    pub host: Host,
}

/// One catalog entry: the matcher token is `name`, and bit zero of `flags`
/// marks a zero-width emote.
#[derive(Debug, Clone)]
pub struct Emote {
    pub id: String,
    pub name: String,
    pub flags: u32,
    pub timestamp: u64,
    pub data: EmoteData,
}

/// One fetched catalog page.
#[derive(Debug, Clone)]
pub struct EmoteSet {
    pub id: String,
    pub name: String,
    pub flags: u32,
    pub immutable: bool,
    pub privileged: bool,
    pub emotes: Vec<Emote>,
    pub emote_count: u32,
    pub capacity: u32,
    pub owner: Owner,
}

/// Whether `p` is a prefix of `s`.
pub fn has_prefix(s: &str, p: &str) -> (r: bool)
    ensures
        r == p@.is_prefix_of(s@),
{
    let slen = s.unicode_len();
    let plen = p.unicode_len();
    if plen > slen {
        return false;
    }
    let mut i: usize = 0;
    while i < plen
        invariant
            i <= plen,
            plen <= slen,
            plen == p@.len(),
            slen == s@.len(),
            forall|j: int| 0 <= j < i ==> s@[j] == p@[j],
        decreases plen - i,
    {
        if s.get_char(i) != p.get_char(i) {
            return false;
        }
        i += 1;
    }
    assert(p@.is_prefix_of(s@)) by {
        assert(p@ =~= s@.subrange(0, p@.len() as int));
    }
    true
}

/// Whether the matcher should load this file: its static name carries the
/// preferred resolution prefix and its format is one of the two raster
/// formats the decode pipeline supports.
pub open spec fn file_wanted(f: File) -> bool {
    "2x"@.is_prefix_of(f.static_name@) && (f.format == FileFormat::Gif || f.format
        == FileFormat::Png)
}

/// The first loadable file among `files`, if any.
pub open spec fn find_file_spec(files: Seq<File>) -> Option<File>
    decreases files.len(),
{
    if files.len() == 0 {
        None
    } else if file_wanted(files[0]) {
        Some(files[0])
    } else {
        find_file_spec(files.drop_first())
    }
}

impl Emote {
    /// Whether this emote renders as an overlay on the previous emote rather
    /// than as a sprite of its own: bit zero of its catalog flags.
    pub fn zero_width(&self) -> (r: bool)
        ensures
            r == (self.flags & 1 != 0),
    {
        self.flags & 1 != 0
    }

    /// The first candidate file worth loading: preferred resolution prefix
    /// and a supported raster format, scanned in catalog order.
    pub fn find_file(&self) -> (r: Option<&File>)
        ensures
            match r {
                None => find_file_spec(self.data.host.files@) is None,
                Some(f) => find_file_spec(self.data.host.files@) == Some(*f),
            },
    {
        let files = &self.data.host.files;
        let mut i: usize = 0;
        proof {
            assert(files@.skip(0) =~= files@);
        }
        while i < files.len()
            invariant
                files@ == self.data.host.files@,
                i <= files@.len(),
                find_file_spec(files@.skip(i as int)) == find_file_spec(files@),
                forall|j: int| 0 <= j < i ==> !file_wanted(files@[j]),
            decreases files@.len() - i,
        {
            proof {
                assert(files@.skip(i as int)[0] == files@[i as int]);
                assert(files@.skip(i as int).drop_first() =~= files@.skip(i + 1));
            }
            let f = &files[i];
            proof {
                assert(*f == files@[i as int]);
            }
            let is_2x = has_prefix(f.static_name.as_str(), "2x");
            let format_ok = match f.format {
                FileFormat::Gif => true,
                FileFormat::Png => true,
                _ => false,
            };
            if is_2x && format_ok {
                proof {
                    assert(find_file_spec(files@.skip(i as int)) == Some(files@[i as int]));
                }
                return Some(f);
            }
            i += 1;
        }
        proof {
            assert(files@.skip(files@.len() as int) =~= Seq::<File>::empty());
        }
        None
    }
}

/// The pages one catalog refresh fetches: every configured set id, plus the
/// implicit "global" page when asked for.
pub open spec fn download_plan_spec(ids: Seq<Seq<char>>, use_global: bool) -> Seq<Seq<char>> {
    if use_global {
        ids.push("global"@)
    } else {
        ids
    }
}

/// Builds the fetch plan of one catalog refresh.
pub fn download_plan(ids: &Vec<String>, use_global: bool) -> (r: Vec<String>)
    ensures
        r.deep_view() == download_plan_spec(ids.deep_view(), use_global),
{
    let mut r: Vec<String> = Vec::new();
    let mut i: usize = 0;
    while i < ids.len()
        invariant
            i <= ids@.len(),
            ids.deep_view().len() == ids@.len(),
            forall|j: int| 0 <= j < ids@.len() ==> #[trigger] ids.deep_view()[j] == ids@[j]@,
            r.deep_view() =~= ids.deep_view().take(i as int),
        decreases ids@.len() - i,
    {
        let ghost pre = r.deep_view();
        r.push(ids[i].clone());
        proof {
            assert(r.deep_view() =~= pre.push(ids@[i as int]@));
            assert(r.deep_view() =~= ids.deep_view().take(i + 1));
        }
        i += 1;
    }
    proof {
        assert(ids.deep_view().take(ids@.len() as int) =~= ids.deep_view());
    }
    if use_global {
        r.push(String::from_str("global"));
        proof {
            assert(r.deep_view() =~= download_plan_spec(ids.deep_view(), use_global));
        }
    }
    r
}

/// The pages that actually arrived, in plan order: fetch failures are simply
/// left out, so one bad page never spoils the others.
pub open spec fn collect_sets_spec(results: Seq<Option<EmoteSet>>) -> Seq<EmoteSet>
    decreases results.len(),
{
    if results.len() == 0 {
        Seq::empty()
    } else {
        let rest = collect_sets_spec(results.drop_first());
        match results[0] {
            Some(s) => seq![s] + rest,
            None => rest,
        }
    }
}

/// Merges the per-page fetch outcomes of one refresh: the pages that
/// arrived, in order, each failed page dropped on its own.
pub fn collect_sets(results: Vec<Option<EmoteSet>>) -> (r: Vec<EmoteSet>)
    ensures
        r@ == collect_sets_spec(results@),
{
    let ghost all = results@;
    let n0 = results.len();
    let mut results = results;
    let mut r: Vec<EmoteSet> = Vec::new();
    proof {
        assert(all.skip(0) =~= all);
    }
    let mut taken: usize = 0;
    while results.len() > 0
        invariant
            taken <= n0,
            all.len() == n0,
            results@ =~= all.skip(taken as int),
            r@ + collect_sets_spec(all.skip(taken as int)) == collect_sets_spec(all),
        decreases results@.len(),
    {
        proof {
            assert(all.skip(taken as int)[0] == all[taken as int]);
            assert(all.skip(taken as int).drop_first() =~= all.skip(taken as int + 1));
        }
        let head = results.remove(0);
        proof {
            assert(results@ =~= all.skip(taken as int + 1));
        }
        match head {
            Some(s) => {
                let ghost pre = r@;
                r.push(s);
                proof {
                    assert(pre + (seq![s] + collect_sets_spec(all.skip(taken as int + 1))) =~= r@
                        + collect_sets_spec(all.skip(taken as int + 1)));
                }
            },
            None => {},
        }
        taken += 1;
    }
    proof {
        assert(all.skip(taken as int) =~= Seq::<Option<EmoteSet>>::empty());
        assert(r@ + Seq::<EmoteSet>::empty() =~= r@);
    }
    r
}

/// A catalog with every page originating from `id` dropped.
pub open spec fn remove_set_spec(sets: Seq<EmoteSet>, id: Seq<char>) -> Seq<EmoteSet>
    decreases sets.len(),
{
    if sets.len() == 0 {
        Seq::empty()
    } else {
        let rest = remove_set_spec(sets.drop_first(), id);
        if sets[0].id@ == id {
            rest
        } else {
            seq![sets[0]] + rest
        }
    }
}

/// Drops every page of the catalog that originated from `id`. Nothing else
/// is touched: entries of other pages keep their order, and work already
/// scheduled for the removed emotes is not recalled.
pub fn remove_set(sets: &mut Vec<EmoteSet>, id: &String) -> (n: usize)
    ensures
        final(sets)@ == remove_set_spec(old(sets)@, id@),
        n == old(sets)@.len() - final(sets)@.len(),
{
    let ghost all = sets@;
    let len0 = sets.len();
    let mut kept: Vec<EmoteSet> = Vec::new();
    proof {
        assert(all.skip(0) =~= all);
    }
    let mut taken: usize = 0;
    while sets.len() > 0
        invariant
            taken <= len0,
            all.len() == len0,
            sets@ =~= all.skip(taken as int),
            kept@ + remove_set_spec(all.skip(taken as int), id@) == remove_set_spec(all, id@),
            kept@.len() <= taken,
        decreases sets@.len(),
    {
        proof {
            assert(all.skip(taken as int)[0] == all[taken as int]);
            assert(all.skip(taken as int).drop_first() =~= all.skip(taken as int + 1));
        }
        let head = sets.remove(0);
        proof {
            assert(sets@ =~= all.skip(taken as int + 1));
        }
        if !head.id.eq(id) {
            let ghost pre = kept@;
            kept.push(head);
            proof {
                assert(pre + (seq![head] + remove_set_spec(all.skip(taken as int + 1), id@)) =~= kept@
                    + remove_set_spec(all.skip(taken as int + 1), id@));
            }
        }
        taken += 1;
    }
    proof {
        assert(all.skip(taken as int) =~= Seq::<EmoteSet>::empty());
        assert(kept@ + Seq::<EmoteSet>::empty() =~= kept@);
    }
    let n = len0 - kept.len();
    *sets = kept;
    n
}

/// One entry of the flattened catalog, as the matcher scans it: the owning
/// set, the matcher token, the flags that steer spawning, and the file the
/// loader would fetch.
pub struct FlatEmote {
    pub set_id: String,
    pub name: String,
    pub zero_width: bool,
    pub animated: bool,
    pub host_url: String,
    pub file_name: Option<String>,
}

/// Ghost image of a flattened catalog entry.
pub ghost struct FlatView {
    pub set_id: Seq<char>,
    pub name: Seq<char>,
    pub zero_width: bool,
    pub animated: bool,
    pub host_url: Seq<char>,
    pub file_name: Option<Seq<char>>,
}

impl FlatEmote {
    pub open spec fn view_spec(&self) -> FlatView {
        FlatView {
            set_id: self.set_id@,
            name: self.name@,
            zero_width: self.zero_width,
            animated: self.animated,
            host_url: self.host_url@,
            file_name: match self.file_name {
                Option::None => Option::None,
                Option::Some(ref s) => Option::Some(s@),
            },
        }
    }
}

/// The flattened image of one emote.
pub open spec fn emote_flat(set_id: Seq<char>, e: Emote) -> FlatView {
    FlatView {
        set_id: set_id,
        name: e.name@,
        zero_width: e.flags & 1 != 0,
        animated: e.data.animated,
        host_url: e.data.host.url@,
        file_name: match find_file_spec(e.data.host.files@) {
            Option::None => Option::None,
            Option::Some(f) => Option::Some(f.name@),
        },
    }
}

/// The flattened image of one catalog page.
pub open spec fn set_flat(s: EmoteSet) -> Seq<FlatView> {
    s.emotes@.map_values(|e: Emote| emote_flat(s.id@, e))
}

/// The whole catalog flattened in catalog order: what one message scan
/// matches tokens against. Duplicate matcher tokens stay: each occurrence
/// matches independently.
pub open spec fn flat_view_of(sets: Seq<EmoteSet>) -> Seq<FlatView>
    decreases sets.len(),
{
    if sets.len() == 0 {
        Seq::empty()
    } else {
        set_flat(sets[0]) + flat_view_of(sets.drop_first())
    }
}

/// Flattens the catalog for one message scan.
pub fn flatten_catalog(sets: &Vec<EmoteSet>) -> (r: Vec<FlatEmote>)
    ensures
        r@.map_values(|f: FlatEmote| f.view_spec()) == flat_view_of(sets@),
{
    let mut r: Vec<FlatEmote> = Vec::new();
    let mut si: usize = 0;
    proof {
        assert(sets@.skip(0) =~= sets@);
        assert(r@.map_values(|f: FlatEmote| f.view_spec()) + flat_view_of(sets@.skip(0))
            =~= flat_view_of(sets@));
    }
    while si < sets.len()
        invariant
            si <= sets@.len(),
            r@.map_values(|f: FlatEmote| f.view_spec()) + flat_view_of(sets@.skip(si as int))
                == flat_view_of(sets@),
        decreases sets@.len() - si,
    {
        proof {
            assert(sets@.skip(si as int)[0] == sets@[si as int]);
            assert(sets@.skip(si as int).drop_first() =~= sets@.skip(si as int + 1));
        }
        let set = &sets[si];
        let mut ei: usize = 0;
        let ghost base = r@.map_values(|f: FlatEmote| f.view_spec());
        while ei < set.emotes.len()
            invariant
                si < sets@.len(),
                ei <= set.emotes@.len(),
                set == &sets@[si as int],
                base + flat_view_of(sets@.skip(si as int)) == flat_view_of(sets@),
                r@.map_values(|f: FlatEmote| f.view_spec()) =~= base + set_flat(*set).take(
                    ei as int,
                ),
            decreases set.emotes@.len() - ei,
        {
            let emote = &set.emotes[ei];
            let file_name = match emote.find_file() {
                Some(f) => Some(f.name.clone()),
                None => None,
            };
            let flat = FlatEmote {
                set_id: set.id.clone(),
                name: emote.name.clone(),
                zero_width: emote.zero_width(),
                animated: emote.data.animated,
                host_url: emote.data.host.url.clone(),
                file_name,
            };
            assert(flat.view_spec() == emote_flat(set.id@, set.emotes@[ei as int]));
            let ghost pre = r@.map_values(|f: FlatEmote| f.view_spec());
            r.push(flat);
            proof {
                assert(r@.map_values(|f: FlatEmote| f.view_spec()) =~= pre.push(flat.view_spec()));
                assert(set_flat(*set).take(ei + 1) =~= set_flat(*set).take(ei as int).push(
                    emote_flat(set.id@, set.emotes@[ei as int]),
                ));
                assert(r@.map_values(|f: FlatEmote| f.view_spec()) =~= base + set_flat(*set).take(
                    ei + 1,
                ));
            }
            ei += 1;
        }
        proof {
            assert(set_flat(*set).take(set.emotes@.len() as int) =~= set_flat(*set));
            assert((base + set_flat(*set)) + flat_view_of(sets@.skip(si as int + 1)) =~= base + (
            set_flat(sets@[si as int]) + flat_view_of(sets@.skip(si as int + 1))));
        }
        si += 1;
    }
    proof {
        assert(flat_view_of(sets@.skip(sets@.len() as int)) =~= Seq::<FlatView>::empty());
        assert(r@.map_values(|f: FlatEmote| f.view_spec()) + Seq::<FlatView>::empty() =~= r@
            .map_values(|f: FlatEmote| f.view_spec()));
    }
    r
}

/// No entry of the flattened catalog survives a page removal with the
/// removed page's id: once `remove_set` drops an id, later message scans
/// can never match one of its emotes again.
pub proof fn lemma_remove_set_removes_matches(sets: Seq<EmoteSet>, id: Seq<char>)
    ensures
        forall|i: int|
            0 <= i < flat_view_of(remove_set_spec(sets, id)).len() ==> #[trigger] flat_view_of(
                remove_set_spec(sets, id),
            )[i].set_id != id,
    decreases sets.len(),
{
    if sets.len() == 0 {
    } else {
        lemma_remove_set_removes_matches(sets.drop_first(), id);
        let rest = remove_set_spec(sets.drop_first(), id);
        if sets[0].id@ == id {
        } else {
            assert(remove_set_spec(sets, id) =~= seq![sets[0]] + rest);
            let whole = flat_view_of(seq![sets[0]] + rest);
            assert((seq![sets[0]] + rest)[0] == sets[0]);
            assert((seq![sets[0]] + rest).drop_first() =~= rest);
            assert(whole == set_flat(sets[0]) + flat_view_of(rest));
            assert forall|i: int| 0 <= i < whole.len() implies #[trigger] whole[i].set_id != id by {
                if i < set_flat(sets[0]).len() {
                    assert(whole[i] == set_flat(sets[0])[i]);
                    assert(whole[i].set_id == sets[0].id@);
                } else {
                    assert(whole[i] == flat_view_of(rest)[i - set_flat(sets[0]).len()]);
                }
            }
        }
    }
}

} // verus!
