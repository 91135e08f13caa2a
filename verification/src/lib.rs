//! Chat-emote overlay core: decoding of two foreign chat-event layouts into
//! one typed event, a token matcher over a mutable emote catalog (including
//! zero-width emotes that attach to the previously spawned sprite), a
//! background work queue, a decode-to-upload handoff for animated images, and
//! the per-frame simulation of floating emote sprites.

pub mod background;
pub mod chat_compact;
pub mod chat_events;
pub mod chat_message;
pub mod giftex;
pub mod settings;
pub mod seventv;
pub mod text;
pub mod timestamp;

use crate::background::{RunningWorker, WorkItem, Worker};
use crate::giftex::{Gif, GifState, RawGif};
use crate::settings::Settings;
use crate::seventv::EmoteSet;
use vstd::prelude::*;

verus! {

/// What one resolved emote image URL yields: the absolute URL, its origin in
/// ASCII form, and its path.
pub struct UrlParts {
    pub full: String,
    pub origin: String,
    pub path: String,
}

/// What the outside URL parser makes of an absolute base URL joined with a
/// file name: `None` when either step is rejected, else the joined URL's
/// full text, origin and path. The outcome depends on the two strings alone.
pub uninterp spec fn url_resolved(base: Seq<char>, file: Seq<char>) -> Option<
    (Seq<char>, Seq<char>, Seq<char>),
>;

/// Relies on `url::Url::parse` and `Url::join`, and on `Url::as_str`,
/// `Url::origin().ascii_serialization()` and `Url::path` to read the joined
/// URL back out; parsing and joining depend on the two strings alone.
#[verifier::external_body]
fn resolve_url(base: &String, file: &String) -> (r: Option<UrlParts>)
    ensures
        r is Some <==> url_resolved(base@, file@) is Some,
        r matches Some(u) ==> url_resolved(base@, file@) == Some((u.full@, u.origin@, u.path@)),
{
    let u = url::Url::parse(base).ok()?.join(file).ok()?;
    Some(
        UrlParts {
            full: u.as_str().to_string(),
            origin: u.origin().ascii_serialization(),
            path: u.path().to_string(),
        },
    )
}

/// Relies on `rand::random_range`: sampling an inclusive integer range
/// returns a value within its bounds; the range is never empty here.
#[verifier::external_body]
fn random_in_range(lo: u64, hi: u64) -> (r: u64)
    requires
        lo <= hi,
    ensures
        lo <= r <= hi,
{
    rand::random_range(lo..=hi)
}

/// One request the render thread forwards to the host's static texture
/// cache: create-or-look-up the image at `origin` + `path` under
/// `identifier`.
pub struct TextureRequest {
    pub identifier: String,
    pub origin: String,
    pub path: String,
}

/// One static texture the host's cache already holds, as the host reports
/// it: its handle and pixel size.
pub struct HostTexture {
    pub identifier: String,
    pub id: u64,
    pub width: u32,
    pub height: u32,
}

/// One drawable layer of a floating emote: the texture-cache identifier, and
/// the animation playback state once the decoded animation is attached.
#[derive(Debug)]
pub struct EmoteLayer {
    pub identifier: String,
    pub gif: Option<GifState>,
}

/// One floating emote sprite: a base layer, at most one attached zero-width
/// overlay layer, and its simulation state. Position is in thousandths of a
/// pixel; `age_ms` counts milliseconds since the sprite was first placed.
/// Both stay unset until the first frame on which the sprite's size is
/// known. `start_offset` desynchronizes the sideways sway between sprites.
#[derive(Debug)]
pub struct ActiveEmote {
    pub layers: (EmoteLayer, Option<EmoteLayer>),
    pub position: Option<(i64, i64)>,
    pub age_ms: Option<u64>,
    pub start_offset: u32,
}

/// Base drift speed in thousandths of a pixel per millisecond.
pub const SPEED_MILLI: i64 = 500;

/// The sway oscillation: a piecewise-linear wave through `[-1000, 1000]`
/// (thousandths of full amplitude) with a four-second period, offset by the
/// sprite's own phase.
pub open spec fn sway_wave_spec(phase: u32, t_ms: u64) -> int {
    let u = (phase + t_ms) % 4000;
    if u < 2000 {
        u - 1000
    } else {
        3000 - u
    }
}

fn sway_wave(phase: u32, t_ms: u64) -> (r: i64)
    requires
        phase < 1000,
        t_ms <= 0x4000_0000_0000_0000,
    ensures
        r == sway_wave_spec(phase, t_ms),
        -1000 <= r <= 1000,
{
    let u = ((phase as u64 + t_ms) % 4000) as i64;
    if u < 2000 {
        u - 1000
    } else {
        3000 - u
    }
}

/// Bound on stored sprite coordinates, comfortably past any surface size.
pub const COORD_BOUND: i64 = 0x4000_0000_0000;

/// Bound on a sprite's accumulated age.
pub const AGE_BOUND: u64 = 0x1000_0000_0000_0000;

impl ActiveEmote {
    /// Coordinates and phase within the ranges the simulation maintains.
    pub open spec fn bounded(self) -> bool {
        &&& self.start_offset < 1000
        &&& self.position matches Some(p) ==> -COORD_BOUND <= p.0 <= COORD_BOUND && -COORD_BOUND
            <= p.1 <= COORD_BOUND
        &&& self.age_ms matches Some(t) ==> t <= AGE_BOUND
    }

    /// The sprite's age after one tick of `elapsed_ms`: it accumulates until
    /// it would leave its bound, then freezes (the age only phases the sway).
    pub open spec fn next_age(self, elapsed_ms: u64) -> u64 {
        let t = self.age_ms.unwrap();
        if t + elapsed_ms <= AGE_BOUND {
            (t + elapsed_ms) as u64
        } else {
            t
        }
    }

    /// How far the sprite falls toward the top edge in one tick: the base
    /// speed modulated by a tenth of the sway wave, times the elapsed time.
    /// The wave is shifted to its non-negative range before the scale-down,
    /// so the speed sweeps `[400, 600]` thousandths of a pixel per
    /// millisecond around the base speed.
    pub open spec fn descent(self, elapsed_ms: u64) -> int {
        (SPEED_MILLI - 100 + (sway_wave_spec(self.start_offset, self.next_age(elapsed_ms)) + 1000)
            / 10) * elapsed_ms
    }

    /// Advances the simulation one tick: the age accumulates and the
    /// vertical position strictly decreases by the tick's descent; nothing
    /// else moves.
    pub fn simulate(&mut self, elapsed_ms: u64)
        requires
            old(self).bounded(),
            old(self).position is Some,
            old(self).age_ms is Some,
            elapsed_ms <= 1_000_000,
        ensures
            final(self).layers == old(self).layers,
            final(self).start_offset == old(self).start_offset,
            final(self).age_ms == Some(old(self).next_age(elapsed_ms)),
            final(self).position matches Some(p) && {
                let q = old(self).position.unwrap();
                p.0 == q.0 && p.1 == q.1 - old(self).descent(elapsed_ms)
            },
    {
        let age = match self.age_ms {
            Some(t) => t,
            None => 0,
        };
        let new_age = if age + elapsed_ms <= AGE_BOUND {
            age + elapsed_ms
        } else {
            age
        };
        self.age_ms = Some(new_age);
        let sway = sway_wave(self.start_offset, new_age);
        let speed: i64 = SPEED_MILLI - 100 + (sway + 1000) / 10;
        proof {
            assert(400 <= speed <= 600);
            assert(speed * elapsed_ms <= 600 * 1_000_000) by (nonlinear_arith)
                requires
                    400 <= speed <= 600,
                    0 <= elapsed_ms <= 1_000_000,
            ;
            assert(speed * elapsed_ms >= 0) by (nonlinear_arith)
                requires
                    400 <= speed <= 600,
                    0 <= elapsed_ms <= 1_000_000,
            ;
        }
        if let Some((x, y)) = self.position {
            self.position = Some((x, y - speed * (elapsed_ms as i64)));
        }
    }

    /// The position to draw at: the sideways sway is display-only, added to
    /// the horizontal coordinate with an amplitude of `pad_px` pixels; the
    /// vertical coordinate is the simulated one, untouched.
    pub fn get_position(&self, pad_px: i64) -> (r: (i64, i64))
        requires
            self.bounded(),
            self.position is Some,
            self.age_ms is Some,
            0 <= pad_px <= 0x1_0000_0000,
        ensures
            r.0 == self.position.unwrap().0 + sway_wave_spec(
                self.start_offset,
                self.age_ms.unwrap(),
            ) * pad_px,
            r.1 == self.position.unwrap().1,
    {
        let (x, y) = match self.position {
            Some(p) => p,
            None => (0, 0),
        };
        let age = match self.age_ms {
            Some(t) => t,
            None => 0,
        };
        let sway = sway_wave(self.start_offset, age);
        proof {
            assert(-0x1_0000_0000_000i64 <= sway * pad_px <= 0x1_0000_0000_000i64)
                by (nonlinear_arith)
                requires
                    -1000 <= sway <= 1000,
                    0 <= pad_px <= 0x1_0000_0000,
            ;
        }
        (x + sway * pad_px, y)
    }

    /// Whether the sprite has left the surface: its bottom edge, one sprite
    /// height above its position, has crossed the top boundary.
    pub open spec fn off_screen(self, height_px: u32) -> bool {
        self.position matches Some(p) && p.1 + height_px * 1000 < 0
    }

    /// The removal test, exactly `position.y + height < 0`.
    pub fn should_remove(&self, height_px: u32) -> (r: bool)
        requires
            self.position matches Some(p) ==> -0x5000_0000_0000 <= p.1 <= 0x5000_0000_0000,
        ensures
            r == self.off_screen(height_px),
    {
        match self.position {
            Some((_, y)) => y + (height_px as i64) * 1000 < 0,
            None => false,
        }
    }
}

/// The identifiers the texture cache knows, in entry order.
pub open spec fn loaded_ids(loaded: Seq<(String, Option<Gif>)>) -> Seq<Seq<char>> {
    loaded.map_values(|e: (String, Option<Gif>)| e.0@)
}

/// The whole overlay state: the catalog, the live sprites, the texture
/// cache keyed by identifier (`None` while a fetch-and-decode is pending),
/// the decode-to-upload handoff queue, and the background work queue. All of
/// it is owned here and handed in by the host, never ambient.
pub struct Overlay {
    pub settings: Settings,
    pub emote_sets: Vec<EmoteSet>,
    pub active_emotes: Vec<ActiveEmote>,
    pub loaded_emotes: Vec<(String, Option<Gif>)>,
    pub texture_queue: Vec<(String, RawGif)>,
    pub worker: RunningWorker,
}

/// Copies a list of strings, character for character.
fn clone_strings(v: &Vec<String>) -> (r: Vec<String>)
    ensures
        r.deep_view() == v.deep_view(),
        r@.len() == v@.len(),
{
    let mut r: Vec<String> = Vec::new();
    let mut i: usize = 0;
    while i < v.len()
        invariant
            i <= v@.len(),
            v.deep_view().len() == v@.len(),
            forall|j: int| 0 <= j < v@.len() ==> #[trigger] v.deep_view()[j] == v@[j]@,
            r.deep_view() =~= v.deep_view().take(i as int),
        decreases v@.len() - i,
    {
        let ghost pre = r.deep_view();
        r.push(v[i].clone());
        proof {
            assert(r.deep_view() =~= pre.push(v@[i as int]@));
            assert(r.deep_view() =~= v.deep_view().take(i + 1));
        }
        i += 1;
    }
    proof {
        assert(v.deep_view().take(v@.len() as int) =~= v.deep_view());
    }
    r
}

impl Overlay {
    /// Every stored sprite within simulation bounds.
    pub open spec fn sprites_bounded(self) -> bool {
        forall|i: int|
            0 <= i < self.active_emotes@.len() ==> (#[trigger] self.active_emotes@[i]).bounded()
    }

    /// Brings the overlay up with the given settings: empty catalog, no
    /// sprites, empty caches, and the work queue open with exactly one job
    /// already queued — the initial catalog refresh for the configured sets.
    pub fn load(settings: Settings) -> (r: Overlay)
        ensures
            r.settings == settings,
            r.emote_sets@ =~= Seq::<EmoteSet>::empty(),
            r.active_emotes@ =~= Seq::<ActiveEmote>::empty(),
            r.loaded_emotes@ =~= Seq::<(String, Option<Gif>)>::empty(),
            r.texture_queue@ =~= Seq::<(String, RawGif)>::empty(),
            r.worker.is_open(),
            r.worker.queue().len() == 1,
            r.worker.queue()[0] matches WorkItem::RefreshSets { ids, use_global } && ids.deep_view()
                == settings.emote_set_ids.deep_view() && use_global == settings.use_global,
            r.sprites_bounded(),
    {
        let ids = clone_strings(&settings.emote_set_ids);
        let use_global = settings.use_global;
        let mut worker = Worker::new().run();
        worker.spawn(WorkItem::RefreshSets { ids, use_global });
        Overlay {
            settings,
            emote_sets: Vec::new(),
            active_emotes: Vec::new(),
            loaded_emotes: Vec::new(),
            texture_queue: Vec::new(),
            worker,
        }
    }

    /// Tears the overlay down: the work queue is closed so nothing further
    /// is accepted, and every piece of shared state — catalog, sprites,
    /// texture cache, handoff queue — is cleared, so nothing leaks into a
    /// later reload. The host drains the queue and joins the worker thread.
    pub fn unload(&mut self)
        ensures
            final(self).settings == old(self).settings,
            final(self).emote_sets@ =~= Seq::<EmoteSet>::empty(),
            final(self).active_emotes@ =~= Seq::<ActiveEmote>::empty(),
            final(self).loaded_emotes@ =~= Seq::<(String, Option<Gif>)>::empty(),
            final(self).texture_queue@ =~= Seq::<(String, RawGif)>::empty(),
            !final(self).worker.is_open(),
            final(self).worker.queue() == old(self).worker.queue(),
    {
        self.worker.close();
        self.emote_sets = Vec::new();
        self.active_emotes = Vec::new();
        self.loaded_emotes = Vec::new();
        self.texture_queue = Vec::new();
    }

    /// Replaces the whole catalog in one assignment: a reader sees either
    /// the catalog as it was or `sets` entire, never a partial merge.
    pub fn set_emote_sets(&mut self, sets: Vec<EmoteSet>)
        ensures
            final(self).emote_sets@ == sets@,
            final(self).settings == old(self).settings,
            final(self).active_emotes == old(self).active_emotes,
            final(self).loaded_emotes == old(self).loaded_emotes,
            final(self).texture_queue == old(self).texture_queue,
            final(self).worker == old(self).worker,
    {
        self.emote_sets = sets;
    }

    /// Appends one fetched catalog page, touching nothing else.
    pub fn add_emote_set(&mut self, set: EmoteSet)
        ensures
            final(self).emote_sets@ == old(self).emote_sets@.push(set),
            final(self).settings == old(self).settings,
            final(self).active_emotes == old(self).active_emotes,
            final(self).loaded_emotes == old(self).loaded_emotes,
            final(self).texture_queue == old(self).texture_queue,
            final(self).worker == old(self).worker,
    {
        self.emote_sets.push(set);
    }

    /// Drops every catalog page originating from `id`. In-flight work is not
    /// recalled: the work queue, the texture cache and the live sprites are
    /// untouched, so loads already scheduled for other ids are unaffected.
    pub fn remove_emote_set(&mut self, id: &String)
        ensures
            final(self).emote_sets@ == crate::seventv::remove_set_spec(old(self).emote_sets@, id@),
            final(self).settings == old(self).settings,
            final(self).active_emotes == old(self).active_emotes,
            final(self).loaded_emotes == old(self).loaded_emotes,
            final(self).texture_queue == old(self).texture_queue,
            final(self).worker == old(self).worker,
    {
        crate::seventv::remove_set(&mut self.emote_sets, id);
    }

    /// The worker thread hands a decoded animation to the render thread:
    /// appended to the handoff queue, never reordered.
    pub fn push_decoded(&mut self, identifier: String, gif: RawGif)
        ensures
            final(self).texture_queue@.len() == old(self).texture_queue@.len() + 1,
            final(self).texture_queue@.subrange(0, old(self).texture_queue@.len() as int)
                == old(self).texture_queue@,
            final(self).texture_queue@.last().0 == identifier,
            final(self).texture_queue@.last().1 == gif,
            final(self).settings == old(self).settings,
            final(self).emote_sets == old(self).emote_sets,
            final(self).active_emotes == old(self).active_emotes,
            final(self).loaded_emotes == old(self).loaded_emotes,
            final(self).worker == old(self).worker,
    {
        self.texture_queue.push((identifier, gif));
        proof {
            assert(self.texture_queue@.subrange(0, old(self).texture_queue@.len() as int)
                =~= old(self).texture_queue@);
        }
    }

    /// The render thread drains the handoff queue: everything queued, in
    /// arrival order, and the queue is left empty. Only the render thread
    /// may upload what comes out.
    pub fn take_upload_batch(&mut self) -> (batch: Vec<(String, RawGif)>)
        ensures
            batch@ == old(self).texture_queue@,
            final(self).texture_queue@ =~= Seq::<(String, RawGif)>::empty(),
            final(self).settings == old(self).settings,
            final(self).emote_sets == old(self).emote_sets,
            final(self).active_emotes == old(self).active_emotes,
            final(self).loaded_emotes == old(self).loaded_emotes,
            final(self).worker == old(self).worker,
    {
        let mut batch: Vec<(String, RawGif)> = Vec::new();
        core::mem::swap(&mut batch, &mut self.texture_queue);
        batch
    }

    /// Records one finished upload: exactly the first cache entry under
    /// `identifier` that is still pending becomes ready with the uploaded
    /// animation, and every other entry is untouched. A ready entry never
    /// transitions again, and an identifier with no pending entry is
    /// ignored.
    pub fn complete_upload(&mut self, identifier: &String, gif: Gif)
        ensures
            final(self).settings == old(self).settings,
            final(self).emote_sets == old(self).emote_sets,
            final(self).active_emotes == old(self).active_emotes,
            final(self).texture_queue == old(self).texture_queue,
            final(self).worker == old(self).worker,
            match first_pending(old(self).loaded_emotes@, identifier@, 0) {
                None => final(self).loaded_emotes == old(self).loaded_emotes,
                Some(i) => final(self).loaded_emotes@ == old(self).loaded_emotes@.update(
                    i,
                    (old(self).loaded_emotes@[i].0, Some(gif)),
                ),
            },
    {
        let ghost all = self.loaded_emotes@;
        let mut i: usize = 0;
        let n = self.loaded_emotes.len();
        proof {
            assert(first_pending(all, identifier@, 0) == first_pending(all, identifier@, 0));
        }
        while i < n
            invariant
                i <= n,
                n == self.loaded_emotes@.len(),
                *self == (Overlay { loaded_emotes: self.loaded_emotes, ..*old(self) }),
                self.loaded_emotes == old(self).loaded_emotes,
                all == old(self).loaded_emotes@,
                first_pending(all, identifier@, 0) == first_pending(all, identifier@, i as int),
            decreases n - i,
        {
            let pending = match self.loaded_emotes[i].1 {
                None => true,
                Some(_) => false,
            };
            if pending && self.loaded_emotes[i].0.eq(identifier) {
                proof {
                    assert(first_pending(all, identifier@, i as int) == Some(i as int));
                }
                let name = self.loaded_emotes[i].0.clone();
                self.loaded_emotes.set(i, (name, Some(gif)));
                proof {
                    assert(self.loaded_emotes@ =~= all.update(
                        i as int,
                        (all[i as int].0, Some(gif)),
                    ));
                }
                return ;
            }
            proof {
                assert(first_pending(all, identifier@, i as int) == first_pending(
                    all,
                    identifier@,
                    i as int + 1,
                ));
            }
            i += 1;
        }
        proof {
            assert(first_pending(all, identifier@, n as int) is None);
        }
    }
}

/// The index of the first cache entry at or after `i` that is under `id` and
/// still pending, if any.
pub open spec fn first_pending(loaded: Seq<(String, Option<Gif>)>, id: Seq<char>, i: int) -> Option<
    int,
>
    decreases loaded.len() - i,
{
    if i < 0 || i >= loaded.len() {
        None
    } else if loaded[i].0@ == id && loaded[i].1 is None {
        Some(i)
    } else {
        first_pending(loaded, id, i + 1)
    }
}


/// Ghost image of one sprite the matcher spawned: its base identifier and
/// the identifier of its attached overlay, if one attached.
pub ghost struct SpawnView {
    pub base: Seq<char>,
    pub overlay: Option<Seq<char>>,
}

/// Ghost image of one scheduled animated-image fetch.
pub ghost struct JobView {
    pub identifier: Seq<char>,
    pub url: Seq<char>,
}

/// Ghost image of one static-texture request.
pub ghost struct StaticView {
    pub identifier: Seq<char>,
    pub origin: Seq<char>,
    pub path: Seq<char>,
}

/// Everything one message scan does to the overlay: the sprites it spawns
/// (with their overlays), the identifiers it marks pending in the texture
/// cache, the fetch-and-decode jobs it queues, and the static-texture
/// requests it emits.
pub ghost struct MatchEffects {
    pub spawned: Seq<SpawnView>,
    pub new_loaded: Seq<Seq<char>>,
    pub jobs: Seq<JobView>,
    pub statics: Seq<StaticView>,
}

pub open spec fn empty_effects() -> MatchEffects {
    MatchEffects {
        spawned: Seq::empty(),
        new_loaded: Seq::empty(),
        jobs: Seq::empty(),
        statics: Seq::empty(),
    }
}

/// The texture-cache identifier a matched token loads under.
pub open spec fn emote_identifier(tok: Seq<char>) -> Seq<char> {
    "EMOTE_"@ + tok
}

/// The absolute form of a catalog host URL, which the source hands over
/// without a scheme.
pub open spec fn abs_host_url(host_url: Seq<char>) -> Seq<char> {
    "https:"@ + host_url + "/"@
}

/// What one catalog entry does for one token. A non-match does nothing. A
/// match either attaches: the entry is zero-width and this message already
/// spawned a sprite, so the most recently spawned sprite's overlay becomes
/// this emote (replacing any previous overlay) — or spawns a new sprite.
/// Either way, if the emote's identifier is not yet in the cache (counting
/// entries added earlier in this same message), and the entry names a
/// loadable file whose URL resolves, the identifier becomes pending and a
/// load is issued: a queued fetch-and-decode job for animated emotes, an
/// immediate static-texture request otherwise.
pub open spec fn step_emote(
    st: MatchEffects,
    loaded0: Seq<Seq<char>>,
    e: crate::seventv::FlatView,
    tok: Seq<char>,
) -> MatchEffects {
    if e.name != tok {
        st
    } else {
        let identifier = emote_identifier(tok);
        let st1 = if e.zero_width && st.spawned.len() > 0 {
            MatchEffects {
                spawned: st.spawned.update(
                    st.spawned.len() - 1,
                    SpawnView { base: st.spawned.last().base, overlay: Some(identifier) },
                ),
                ..st
            }
        } else {
            MatchEffects {
                spawned: st.spawned.push(SpawnView { base: identifier, overlay: None }),
                ..st
            }
        };
        if crate::settings::ids_contain(loaded0 + st1.new_loaded, identifier) {
            st1
        } else {
            match e.file_name {
                Option::None => st1,
                Option::Some(fname) => match url_resolved(abs_host_url(e.host_url), fname) {
                    Option::None => st1,
                    Option::Some(parts) => {
                        let st2 = MatchEffects { new_loaded: st1.new_loaded.push(identifier), ..st1 };
                        if e.animated {
                            MatchEffects {
                                jobs: st2.jobs.push(JobView { identifier, url: parts.0 }),
                                ..st2
                            }
                        } else {
                            MatchEffects {
                                statics: st2.statics.push(
                                    StaticView { identifier, origin: parts.1, path: parts.2 },
                                ),
                                ..st2
                            }
                        }
                    },
                },
            }
        }
    }
}

/// One token scanned against the whole flattened catalog, in catalog order;
/// every entry whose name equals the token acts independently.
pub open spec fn run_emotes(
    st: MatchEffects,
    loaded0: Seq<Seq<char>>,
    emotes: Seq<crate::seventv::FlatView>,
    tok: Seq<char>,
) -> MatchEffects
    decreases emotes.len(),
{
    if emotes.len() == 0 {
        st
    } else {
        run_emotes(step_emote(st, loaded0, emotes[0], tok), loaded0, emotes.drop_first(), tok)
    }
}

/// All tokens of one message, left to right.
pub open spec fn run_tokens(
    st: MatchEffects,
    loaded0: Seq<Seq<char>>,
    emotes: Seq<crate::seventv::FlatView>,
    toks: Seq<Seq<char>>,
) -> MatchEffects
    decreases toks.len(),
{
    if toks.len() == 0 {
        st
    } else {
        run_tokens(run_emotes(st, loaded0, emotes, toks[0]), loaded0, emotes, toks.drop_first())
    }
}

/// Everything one message does, as a function of the flattened catalog, the
/// identifiers already cached, and the message text.
pub open spec fn message_effects(
    emotes: Seq<crate::seventv::FlatView>,
    loaded0: Seq<Seq<char>>,
    text: Seq<char>,
) -> MatchEffects {
    run_tokens(empty_effects(), loaded0, emotes, crate::text::tokens_of(text))
}

/// Ghost image of a live sprite, as the matcher's contract sees it.
pub open spec fn inst_spawn_view(a: ActiveEmote) -> SpawnView {
    SpawnView {
        base: a.layers.0.identifier@,
        overlay: match a.layers.1 {
            Option::None => Option::None,
            Option::Some(l) => Option::Some(l.identifier@),
        },
    }
}

/// A sprite as the matcher creates it: unplaced, unaged, no animation
/// attached yet, and its sway phase inside the sampled range.
pub open spec fn fresh_spawn(a: ActiveEmote) -> bool {
    &&& a.position is None
    &&& a.age_ms is None
    &&& a.start_offset < 1000
    &&& a.layers.0.gif is None
    &&& a.layers.1 matches Option::Some(l) ==> l.gif is None
}

pub open spec fn job_matches(w: WorkItem, j: JobView) -> bool {
    w matches WorkItem::FetchGif { identifier, url } && identifier@ == j.identifier && url@ == j.url
}

pub open spec fn req_matches(r: TextureRequest, s: StaticView) -> bool {
    r.identifier@ == s.identifier && r.origin@ == s.origin && r.path@ == s.path
}

/// How one message scan relates the overlay after (`post`, with the emitted
/// requests `reqs`) to the overlay before (`pre`): settings, catalog and
/// handoff queue untouched; exactly the spawned sprites appended (older
/// sprites bitwise unchanged); exactly the new identifiers appended to the
/// cache, pending; exactly the fetch jobs appended to the work queue, in
/// order; and exactly the static requests emitted.
pub open spec fn message_applied(
    pre: Overlay,
    post: Overlay,
    reqs: Seq<TextureRequest>,
    eff: MatchEffects,
) -> bool {
    let a0 = pre.active_emotes@.len() as int;
    let l0 = pre.loaded_emotes@.len() as int;
    let q0 = pre.worker.queue().len() as int;
    &&& post.settings == pre.settings
    &&& post.emote_sets == pre.emote_sets
    &&& post.texture_queue == pre.texture_queue
    &&& post.worker.is_open() == pre.worker.is_open()
    &&& post.active_emotes@.len() == a0 + eff.spawned.len()
    &&& post.active_emotes@.subrange(0, a0) == pre.active_emotes@
    &&& forall|k: int|
        0 <= k < eff.spawned.len() ==> inst_spawn_view(post.active_emotes@[a0 + k])
            == #[trigger] eff.spawned[k] && fresh_spawn(post.active_emotes@[a0 + k])
    &&& post.loaded_emotes@.len() == l0 + eff.new_loaded.len()
    &&& post.loaded_emotes@.subrange(0, l0) == pre.loaded_emotes@
    &&& forall|k: int|
        0 <= k < eff.new_loaded.len() ==> (post.loaded_emotes@[l0 + k].0@
            == #[trigger] eff.new_loaded[k] && post.loaded_emotes@[l0 + k].1 is None)
    &&& post.worker.queue().len() == q0 + eff.jobs.len()
    &&& post.worker.queue().subrange(0, q0) == pre.worker.queue()
    &&& forall|k: int|
        0 <= k < eff.jobs.len() ==> job_matches(
            post.worker.queue()[q0 + k],
            #[trigger] eff.jobs[k],
        )
    &&& reqs.len() == eff.statics.len()
    &&& forall|k: int|
        0 <= k < eff.statics.len() ==> req_matches(reqs[k], #[trigger] eff.statics[k])
}

/// Whether the cache already has an entry under `id`.
fn loaded_contains(loaded: &Vec<(String, Option<Gif>)>, id: &String) -> (r: bool)
    ensures
        r == crate::settings::ids_contain(loaded_ids(loaded@), id@),
{
    let mut i: usize = 0;
    while i < loaded.len()
        invariant
            i <= loaded@.len(),
            forall|j: int| 0 <= j < i ==> (#[trigger] loaded@[j]).0@ != id@,
        decreases loaded@.len() - i,
    {
        if loaded[i].0.eq(id) {
            proof {
                assert(loaded_ids(loaded@)[i as int] == id@);
            }
            return true;
        }
        i += 1;
    }
    proof {
        assert forall|j: int| 0 <= j < loaded_ids(loaded@).len() implies #[trigger] loaded_ids(
            loaded@,
        )[j] != id@ by {
            assert(loaded_ids(loaded@)[j] == loaded@[j].0@);
        }
    }
    false
}

impl Overlay {
    /// Scans one message's text against the current catalog, left to right,
    /// token by token. Exactly the effects of `message_effects` happen: new
    /// sprites appended (each zero-width match attaching to the most
    /// recently spawned sprite of this message instead, when there is one),
    /// missing images marked pending and their loads issued — queued
    /// fetch-and-decode jobs for animated emotes, and the returned
    /// static-texture requests for the rest, which the render thread
    /// forwards to the host's texture cache.
    pub fn process_message(&mut self, content: &str) -> (reqs: Vec<TextureRequest>)
        requires
            old(self).worker.is_open(),
        ensures
            message_applied(
                *old(self),
                *final(self),
                reqs@,
                message_effects(
                    crate::seventv::flat_view_of(old(self).emote_sets@),
                    loaded_ids(old(self).loaded_emotes@),
                    content@,
                ),
            ),
            old(self).sprites_bounded() ==> final(self).sprites_bounded(),
    {
        let tokens = crate::text::tokenize(content);
        let flat = crate::seventv::flatten_catalog(&self.emote_sets);
        let ghost emotes_v = flat@.map_values(|f: crate::seventv::FlatEmote| f.view_spec());
        let ghost loaded0 = loaded_ids(self.loaded_emotes@);
        let ghost toks = tokens.deep_view();
        let ghost full_eff = message_effects(emotes_v, loaded0, content@);
        let mut reqs: Vec<TextureRequest> = Vec::new();
        let ghost mut st = empty_effects();
        let msg_start_active = self.active_emotes.len();
        proof {
            assert(toks.skip(0) =~= toks);
            assert(message_applied(*old(self), *self, reqs@, st)) by {
                assert(self.active_emotes@.subrange(0, self.active_emotes@.len() as int)
                    =~= self.active_emotes@);
                assert(self.loaded_emotes@.subrange(0, self.loaded_emotes@.len() as int)
                    =~= self.loaded_emotes@);
                assert(self.worker.queue().subrange(0, self.worker.queue().len() as int)
                    =~= self.worker.queue());
            }
        }
        let mut ti: usize = 0;
        while ti < tokens.len()
            invariant
                ti <= tokens@.len(),
                old(self).worker.is_open(),
                msg_start_active == old(self).active_emotes@.len(),
                toks == tokens.deep_view(),
                toks.len() == tokens@.len(),
                forall|j: int| 0 <= j < tokens@.len() ==> #[trigger] toks[j] == tokens@[j]@,
                emotes_v == flat@.map_values(|f: crate::seventv::FlatEmote| f.view_spec()),
                emotes_v.len() == flat@.len(),
                loaded0 == loaded_ids(old(self).loaded_emotes@),
                full_eff == message_effects(emotes_v, loaded0, content@),
                run_tokens(st, loaded0, emotes_v, toks.skip(ti as int)) == full_eff,
                message_applied(*old(self), *self, reqs@, st),
            decreases tokens@.len() - ti,
        {
            let token = &tokens[ti];
            let ghost tokv = toks[ti as int];
            proof {
                assert(token@ == tokv);
                assert(toks.skip(ti as int)[0] == tokv);
                assert(toks.skip(ti as int).drop_first() =~= toks.skip(ti as int + 1));
                assert(emotes_v.skip(0) =~= emotes_v);
            }
            let mut ei: usize = 0;
            while ei < flat.len()
                invariant
                    ei <= flat@.len(),
                    old(self).worker.is_open(),
                    msg_start_active == old(self).active_emotes@.len(),
                    ti < tokens@.len(),
                    toks == tokens.deep_view(),
                    toks.len() == tokens@.len(),
                    token == &tokens@[ti as int],
                    token@ == tokv,
                    tokv == toks[ti as int],
                    emotes_v == flat@.map_values(|f: crate::seventv::FlatEmote| f.view_spec()),
                    emotes_v.len() == flat@.len(),
                    loaded0 == loaded_ids(old(self).loaded_emotes@),
                    full_eff == message_effects(emotes_v, loaded0, content@),
                    run_tokens(
                        run_emotes(st, loaded0, emotes_v.skip(ei as int), tokv),
                        loaded0,
                        emotes_v,
                        toks.skip(ti as int + 1),
                    ) == full_eff,
                    message_applied(*old(self), *self, reqs@, st),
                decreases flat@.len() - ei,
            {
                proof {
                    assert(emotes_v.skip(ei as int)[0] == emotes_v[ei as int]);
                    assert(emotes_v.skip(ei as int).drop_first() =~= emotes_v.skip(ei as int + 1));
                    assert(emotes_v[ei as int] == flat@[ei as int].view_spec());
                }
                let entry = &flat[ei];
                let ghost ev = emotes_v[ei as int];
                if entry.name.eq(token) {
                    let identifier = String::from_str("EMOTE_").concat(token.as_str());
                    proof {
                        assert(identifier@ == emote_identifier(tokv));
                    }
                    let ghost st_pre = st;
                    if entry.zero_width && self.active_emotes.len() > msg_start_active {
                        let ghost pre_active = self.active_emotes@;
                        if let Some(last) = self.active_emotes.pop() {
                            let mut last = last;
                            last.layers.1 = Some(
                                EmoteLayer { identifier: identifier.clone(), gif: None },
                            );
                            self.active_emotes.push(last);
                        }
                        proof {
                            let li = pre_active.len() - 1;
                            assert(self.active_emotes@ =~= pre_active.update(
                                li,
                                self.active_emotes@[li],
                            ));
                            st = MatchEffects {
                                spawned: st.spawned.update(
                                    st.spawned.len() - 1,
                                    SpawnView {
                                        base: st.spawned.last().base,
                                        overlay: Some(identifier@),
                                    },
                                ),
                                ..st
                            };
                            assert(self.active_emotes@.subrange(
                                0,
                                old(self).active_emotes@.len() as int,
                            ) =~= old(self).active_emotes@);
                        }
                    } else {
                        let phase = random_in_range(0, 999);
                        self.active_emotes.push(
                            ActiveEmote {
                                layers: (
                                    EmoteLayer { identifier: identifier.clone(), gif: None },
                                    None,
                                ),
                                position: None,
                                age_ms: None,
                                start_offset: phase as u32,
                            },
                        );
                        proof {
                            st = MatchEffects {
                                spawned: st.spawned.push(
                                    SpawnView { base: identifier@, overlay: None },
                                ),
                                ..st
                            };
                            assert(self.active_emotes@.subrange(
                                0,
                                old(self).active_emotes@.len() as int,
                            ) =~= old(self).active_emotes@);
                        }
                    }
                    let ghost st1 = st;
                    proof {
                        assert(message_applied(*old(self), *self, reqs@, st1));
                    }
                    let in_cache = loaded_contains(&self.loaded_emotes, &identifier);
                    proof {
                        assert(loaded_ids(self.loaded_emotes@) =~= loaded0 + st1.new_loaded) by {
                            assert forall|j: int|
                                0 <= j < self.loaded_emotes@.len() implies #[trigger] loaded_ids(
                                self.loaded_emotes@,
                            )[j] == (loaded0 + st1.new_loaded)[j] by {
                                let l0 = old(self).loaded_emotes@.len() as int;
                                assert(loaded_ids(self.loaded_emotes@)[j]
                                    == self.loaded_emotes@[j].0@);
                                if j < l0 {
                                    assert(self.loaded_emotes@.subrange(0, l0)[j]
                                        == self.loaded_emotes@[j]);
                                } else {
                                    assert(self.loaded_emotes@[j].0@ == st1.new_loaded[j - l0]);
                                }
                            }
                        }
                        assert(in_cache == crate::settings::ids_contain(
                            loaded0 + st1.new_loaded,
                            emote_identifier(tokv),
                        ));
                    }
                    if !in_cache {
                        match &entry.file_name {
                            None => {},
                            Some(fname) => {
                                let base = String::from_str("https:").concat(
                                    entry.host_url.as_str(),
                                ).concat("/");
                                proof {
                                    assert(base@ == abs_host_url(ev.host_url));
                                }
                                match resolve_url(&base, fname) {
                                    None => {},
                                    Some(parts) => {
                                        let ghost pre_loaded = self.loaded_emotes@;
                                        self.loaded_emotes.push((identifier.clone(), None));
                                        proof {
                                            st = MatchEffects {
                                                new_loaded: st.new_loaded.push(identifier@),
                                                ..st
                                            };
                                        }
                                        if entry.animated {
                                            self.worker.spawn(
                                                WorkItem::FetchGif {
                                                    identifier: identifier.clone(),
                                                    url: parts.full,
                                                },
                                            );
                                            proof {
                                                st = MatchEffects {
                                                    jobs: st.jobs.push(
                                                        JobView {
                                                            identifier: identifier@,
                                                            url: url_resolved(
                                                                abs_host_url(ev.host_url),
                                                                ev.file_name.unwrap(),
                                                            ).unwrap().0,
                                                        },
                                                    ),
                                                    ..st
                                                };
                                            }
                                        } else {
                                            reqs.push(
                                                TextureRequest {
                                                    identifier: identifier.clone(),
                                                    origin: parts.origin,
                                                    path: parts.path,
                                                },
                                            );
                                            proof {
                                                st = MatchEffects {
                                                    statics: st.statics.push(
                                                        StaticView {
                                                            identifier: identifier@,
                                                            origin: url_resolved(
                                                                abs_host_url(ev.host_url),
                                                                ev.file_name.unwrap(),
                                                            ).unwrap().1,
                                                            path: url_resolved(
                                                                abs_host_url(ev.host_url),
                                                                ev.file_name.unwrap(),
                                                            ).unwrap().2,
                                                        },
                                                    ),
                                                    ..st
                                                };
                                            }
                                        }
                                        proof {
                                            assert(self.loaded_emotes@.subrange(
                                                0,
                                                old(self).loaded_emotes@.len() as int,
                                            ) =~= old(self).loaded_emotes@) by {
                                                assert(self.loaded_emotes@.drop_last()
                                                    =~= pre_loaded);
                                            }
                                            assert(self.worker.queue().subrange(
                                                0,
                                                old(self).worker.queue().len() as int,
                                            ) =~= old(self).worker.queue());
                                        }
                                    },
                                }
                            },
                        }
                    }
                    proof {
                        assert(st == step_emote(st_pre, loaded0, ev, tokv));
                        assert(message_applied(*old(self), *self, reqs@, st));
                    }
                } else {
                    proof {
                        assert(ev.name != tokv);
                        assert(step_emote(st, loaded0, ev, tokv) == st);
                    }
                }
                ei += 1;
            }
            proof {
                assert(emotes_v.skip(emotes_v.len() as int)
                    =~= Seq::<crate::seventv::FlatView>::empty());
            }
            ti += 1;
        }
        proof {
            assert(toks.skip(toks.len() as int) =~= Seq::<Seq<char>>::empty());
            assert(st == full_eff);
            assert forall|i: int|
                old(self).sprites_bounded() && 0 <= i < self.active_emotes@.len() implies (
            #[trigger] self.active_emotes@[i]).bounded() by {
                let a0 = old(self).active_emotes@.len() as int;
                if i < a0 {
                    assert(self.active_emotes@.subrange(0, a0)[i] == self.active_emotes@[i]);
                    assert(old(self).active_emotes@[i].bounded());
                } else {
                    let k = i - a0;
                    assert(st.spawned[k] == inst_spawn_view(self.active_emotes@[a0 + k]));
                    assert(fresh_spawn(self.active_emotes@[a0 + k]));
                }
            }
        }
        reqs
    }
}


/// The message text one raw extended event would contribute to matching,
/// were its decode to succeed: the content slot of the selected shape, read
/// as UTF-8 with absence as the empty string; nothing for the emote shapes.
pub open spec fn raw_event_content(raw: crate::chat_events::RawChatEvent) -> Option<Seq<char>> {
    if raw.msg_type == crate::chat_events::MSG_TYPE_SQUAD_MESSAGE || raw.msg_type
        == crate::chat_events::MSG_TYPE_SQUAD_BROADCAST {
        Some(
            crate::chat_events::utf8_chars_or_empty(
                crate::chat_events::opt_bytes(raw.squad_message),
            ),
        )
    } else if raw.msg_type == crate::chat_events::MSG_TYPE_EMOTE || raw.msg_type
        == crate::chat_events::MSG_TYPE_EMOTE_CUSTOM {
        None
    } else if raw.msg_type >= crate::chat_events::MSG_TYPE_GUILD && raw.msg_type
        <= crate::chat_events::MSG_TYPE_WHISPER {
        Some(crate::chat_events::utf8_chars_or_empty(crate::chat_events::opt_bytes(raw.content)))
    } else {
        None
    }
}

impl Overlay {
    /// Feeds one message from the extras source into the overlay. Nothing
    /// happens unless the settings select that source; party and squad
    /// messages are then matched with their text, and the other channel
    /// kinds carry nothing.
    pub fn on_extras_message(
        &mut self,
        info: crate::chat_message::ExtrasMessageInfo,
        now: crate::timestamp::Timestamp,
    ) -> (reqs: Vec<TextureRequest>)
        requires
            old(self).worker.is_open(),
            now.well_formed(),
        ensures
            old(self).settings.chat_message_source
                != crate::settings::ChatMessageSource::UnofficialExtras ==> *final(self) == *old(
                self,
            ) && reqs@.len() == 0,
            old(self).settings.chat_message_source
                == crate::settings::ChatMessageSource::UnofficialExtras ==> if (info.channel_type
                == crate::chat_message::ExtrasChannel::Party || info.channel_type
                == crate::chat_message::ExtrasChannel::Squad) {
                message_applied(
                    *old(self),
                    *final(self),
                    reqs@,
                    message_effects(
                        crate::seventv::flat_view_of(old(self).emote_sets@),
                        loaded_ids(old(self).loaded_emotes@),
                        info.text@,
                    ),
                )
            } else {
                *final(self) == *old(self) && reqs@.len() == 0
            },
            old(self).sprites_bounded() ==> final(self).sprites_bounded(),
    {
        match self.settings.chat_message_source {
            crate::settings::ChatMessageSource::UnofficialExtras => {},
            _ => {
                return Vec::new();
            },
        }
        let message = match crate::chat_message::message_from_extras(info, now) {
            Some(m) => m,
            None => {
                return Vec::new();
            },
        };
        match message.content() {
            Some(content) => {
                let text = content.as_str();
                self.process_message(text)
            },
            None => Vec::new(),
        }
    }

    /// Feeds one raw extended chat event into the overlay. Nothing happens
    /// unless the settings select that source; the event is then decoded —
    /// a failure is handed back for the host to log, and the one bad event
    /// is dropped without touching anything — and its text, if its shape
    /// carries any, is matched.
    pub fn on_chat_event(
        &mut self,
        raw: crate::chat_events::RawChatEvent,
        now: crate::timestamp::Timestamp,
    ) -> (r: (Vec<TextureRequest>, Option<crate::chat_events::DecodeError>))
        requires
            old(self).worker.is_open(),
            now.well_formed(),
        ensures
            old(self).settings.chat_message_source != crate::settings::ChatMessageSource::ChatEvents
                ==> *final(self) == *old(self) && r.0@.len() == 0 && r.1 is None,
            old(self).settings.chat_message_source == crate::settings::ChatMessageSource::ChatEvents
                && !crate::chat_events::source_decode_ok(raw) ==> *final(self) == *old(self)
                && r.0@.len() == 0 && r.1 == Some(crate::chat_events::source_decode_error(raw)),
            old(self).settings.chat_message_source == crate::settings::ChatMessageSource::ChatEvents
                && crate::chat_events::source_decode_ok(raw) ==> r.1 is None && match raw_event_content(
                raw,
            ) {
                Some(text) => message_applied(
                    *old(self),
                    *final(self),
                    r.0@,
                    message_effects(
                        crate::seventv::flat_view_of(old(self).emote_sets@),
                        loaded_ids(old(self).loaded_emotes@),
                        text,
                    ),
                ),
                None => *final(self) == *old(self) && r.0@.len() == 0,
            },
            old(self).sprites_bounded() ==> final(self).sprites_bounded(),
    {
        match self.settings.chat_message_source {
            crate::settings::ChatMessageSource::ChatEvents => {},
            _ => {
                return (Vec::new(), None);
            },
        }
        let ghost raw0 = raw;
        let message = match crate::chat_events::Message::decode(raw, now) {
            Ok(m) => m,
            Err(e) => {
                return (Vec::new(), Some(e));
            },
        };
        match message.content() {
            Some(content) => {
                let text = content.as_str();
                let reqs = self.process_message(text);
                proof {
                    assert(raw_event_content(raw0) == Some(content@));
                }
                (reqs, None)
            },
            None => {
                proof {
                    assert(raw_event_content(raw0) is None);
                }
                (Vec::new(), None)
            },
        }
    }
}

/// A catalog after a sequence of settings differences is applied: each
/// removal drops its pages at once; each addition leaves the catalog to the
/// page fetch it schedules.
pub open spec fn apply_diff_sets(
    sets: Seq<EmoteSet>,
    diffs: Seq<crate::settings::DiffView>,
) -> Seq<EmoteSet>
    decreases diffs.len(),
{
    if diffs.len() == 0 {
        sets
    } else {
        let rest = match diffs[0] {
            crate::settings::DiffView::Added(_) => sets,
            crate::settings::DiffView::Removed(id) => crate::seventv::remove_set_spec(sets, id),
        };
        apply_diff_sets(rest, diffs.drop_first())
    }
}

/// The page fetches a sequence of settings differences schedules: one per
/// addition, in order.
pub open spec fn added_set_ids(diffs: Seq<crate::settings::DiffView>) -> Seq<Seq<char>>
    decreases diffs.len(),
{
    if diffs.len() == 0 {
        Seq::empty()
    } else {
        let rest = added_set_ids(diffs.drop_first());
        match diffs[0] {
            crate::settings::DiffView::Added(id) => seq![id] + rest,
            crate::settings::DiffView::Removed(_) => rest,
        }
    }
}

impl Overlay {
    /// Applies an edit of the configured emote sets, difference by
    /// difference, in order: a removed id drops its catalog pages at once;
    /// an added id schedules one page fetch on the work queue. Sprites, the
    /// texture cache and the handoff queue are untouched, so loads already
    /// in flight for other ids are unaffected.
    pub fn apply_diffs(&mut self, diffs: Vec<crate::settings::Diff<String>>)
        requires
            old(self).worker.is_open(),
        ensures
            final(self).emote_sets@ == apply_diff_sets(
                old(self).emote_sets@,
                diffs@.map_values(|d: crate::settings::Diff<String>| crate::settings::diff_view(d)),
            ),
            final(self).worker.is_open(),
            final(self).worker.queue().len() == old(self).worker.queue().len() + added_set_ids(
                diffs@.map_values(|d: crate::settings::Diff<String>| crate::settings::diff_view(d)),
            ).len(),
            final(self).worker.queue().subrange(0, old(self).worker.queue().len() as int) == old(
                self,
            ).worker.queue(),
            forall|k: int|
                0 <= k < added_set_ids(
                    diffs@.map_values(
                        |d: crate::settings::Diff<String>| crate::settings::diff_view(d),
                    ),
                ).len() ==> ((#[trigger] final(self).worker.queue()[old(self).worker.queue().len()
                    + k]) matches WorkItem::AddSet { id } && id@ == added_set_ids(
                    diffs@.map_values(
                        |d: crate::settings::Diff<String>| crate::settings::diff_view(d),
                    ),
                )[k]),
            final(self).settings == old(self).settings,
            final(self).active_emotes == old(self).active_emotes,
            final(self).loaded_emotes == old(self).loaded_emotes,
            final(self).texture_queue == old(self).texture_queue,
    {
        let ghost dv = diffs@.map_values(
            |d: crate::settings::Diff<String>| crate::settings::diff_view(d),
        );
        let ghost all = diffs@;
        let n0 = diffs.len();
        let mut diffs = diffs;
        let mut taken: usize = 0;
        proof {
            assert(dv.skip(0) =~= dv);
        }
        while diffs.len() > 0
            invariant
                taken <= n0,
                all.len() == n0,
                dv.len() == n0,
                dv == all.map_values(
                    |d: crate::settings::Diff<String>| crate::settings::diff_view(d),
                ),
                diffs@ =~= all.skip(taken as int),
                old(self).worker.is_open(),
                self.worker.is_open(),
                apply_diff_sets(self.emote_sets@, dv.skip(taken as int)) == apply_diff_sets(
                    old(self).emote_sets@,
                    dv,
                ),
                self.worker.queue().len() + added_set_ids(dv.skip(taken as int)).len() == old(
                    self,
                ).worker.queue().len() + added_set_ids(dv).len(),
                self.worker.queue().subrange(0, old(self).worker.queue().len() as int) == old(
                    self,
                ).worker.queue(),
                forall|k: int|
                    0 <= k < self.worker.queue().len() - old(self).worker.queue().len() ==> ((
                    #[trigger] self.worker.queue()[old(self).worker.queue().len() + k])
                        matches WorkItem::AddSet { id } && id@ == added_set_ids(dv)[k]),
                added_set_ids(dv).len() - added_set_ids(dv.skip(taken as int)).len()
                    == self.worker.queue().len() - old(self).worker.queue().len(),
                added_set_ids(dv).take(
                    added_set_ids(dv).len() - added_set_ids(dv.skip(taken as int)).len(),
                ) + added_set_ids(dv.skip(taken as int)) =~= added_set_ids(dv),
                self.settings == old(self).settings,
                self.active_emotes == old(self).active_emotes,
                self.loaded_emotes == old(self).loaded_emotes,
                self.texture_queue == old(self).texture_queue,
            decreases diffs@.len(),
        {
            proof {
                assert(all.skip(taken as int)[0] == all[taken as int]);
                assert(all.skip(taken as int).drop_first() =~= all.skip(taken as int + 1));
                assert(dv.skip(taken as int)[0] == dv[taken as int]);
                assert(dv.skip(taken as int).drop_first() =~= dv.skip(taken as int + 1));
                assert(dv[taken as int] == crate::settings::diff_view(all[taken as int]));
            }
            let d = diffs.remove(0);
            proof {
                assert(diffs@ =~= all.skip(taken as int + 1));
            }
            match d {
                crate::settings::Diff::Added(id) => {
                    let ghost done = added_set_ids(dv).len() - added_set_ids(
                        dv.skip(taken as int),
                    ).len();
                    self.worker.spawn(WorkItem::AddSet { id });
                    proof {
                        assert(added_set_ids(dv)[done] == id@) by {
                            assert((added_set_ids(dv).take(done) + added_set_ids(
                                dv.skip(taken as int),
                            ))[done] == added_set_ids(dv.skip(taken as int))[0]);
                        }
                        assert(added_set_ids(dv).take(done + 1) =~= added_set_ids(dv).take(
                            done,
                        ).push(added_set_ids(dv)[done]));
                        assert(added_set_ids(dv).take(done + 1) + added_set_ids(
                            dv.skip(taken as int + 1),
                        ) =~= added_set_ids(dv));
                        assert(self.worker.queue().subrange(
                            0,
                            old(self).worker.queue().len() as int,
                        ) =~= old(self).worker.queue());
                    }
                },
                crate::settings::Diff::Removed(id) => {
                    crate::seventv::remove_set(&mut self.emote_sets, &id);
                },
            }
            taken += 1;
        }
        proof {
            assert(dv.skip(n0 as int) =~= Seq::<crate::settings::DiffView>::empty());
            assert(added_set_ids(dv).take(added_set_ids(dv).len() as int) =~= added_set_ids(dv));
        }
    }
}


/// The first texture the host's static cache reports under `id`, if any.
pub open spec fn host_size(host: Seq<HostTexture>, id: Seq<char>) -> Option<HostTexture>
    decreases host.len(),
{
    if host.len() == 0 {
        None
    } else if host[0].identifier@ == id {
        Some(host[0])
    } else {
        host_size(host.drop_first(), id)
    }
}

/// The first ready animation the texture cache holds under `id`, if any;
/// entries still pending do not count.
pub open spec fn cache_ready(loaded: Seq<(String, Option<Gif>)>, id: Seq<char>) -> Option<Gif>
    decreases loaded.len(),
{
    if loaded.len() == 0 {
        None
    } else if loaded[0].0@ == id && loaded[0].1 is Some {
        Some(loaded[0].1.unwrap())
    } else {
        cache_ready(loaded.drop_first(), id)
    }
}

/// The drawn size of one layer, if it is known yet: the host's static
/// texture takes precedence, else an attached animation's declared size.
pub open spec fn layer_size(l: EmoteLayer, host: Seq<HostTexture>) -> Option<(u32, u32)> {
    match host_size(host, l.identifier@) {
        Some(t) => Some((t.width, t.height)),
        None => match l.gif {
            Some(st) => Some((st.frames.width, st.frames.height)),
            None => None,
        },
    }
}

/// The overall size of one sprite, if every layer's size is known: the
/// larger extent of base and overlay in each direction.
pub open spec fn inst_size(a: ActiveEmote, host: Seq<HostTexture>) -> Option<(u32, u32)> {
    match layer_size(a.layers.0, host) {
        None => None,
        Some(b) => match a.layers.1 {
            None => Some(b),
            Some(ol) => match layer_size(ol, host) {
                None => None,
                Some(o) => Some(
                    (if o.0 > b.0 { o.0 } else { b.0 }, if o.1 > b.1 { o.1 } else { b.1 }),
                ),
            },
        },
    }
}

/// A sprite's age after this tick, whether or not its clock had started.
pub open spec fn stepped_age(a: ActiveEmote, elapsed_ms: u64) -> u64 {
    let t0: u64 = if a.age_ms is Some { a.age_ms.unwrap() } else { 0 };
    if t0 + elapsed_ms <= AGE_BOUND {
        (t0 + elapsed_ms) as u64
    } else {
        t0
    }
}

/// This tick's descent for a sprite, whether or not it was already placed.
pub open spec fn tick_descent(a: ActiveEmote, elapsed_ms: u64) -> int {
    (SPEED_MILLI - 100 + (sway_wave_spec(a.start_offset, stepped_age(a, elapsed_ms)) + 1000) / 10)
        * elapsed_ms
}

/// A sprite's vertical position after this tick: a sprite placed this tick
/// starts at the bottom of the surface; every sprite then falls by this
/// tick's descent.
pub open spec fn stepped_y(a: ActiveEmote, elapsed_ms: u64, surface_height: u32) -> int {
    (if a.position is Some {
        a.position.unwrap().1 as int
    } else {
        surface_height * 1000
    }) - tick_descent(a, elapsed_ms)
}

/// Whether a sprite survives this tick: a sprite whose size is still
/// unknown always does; one whose size is known survives exactly while
/// `position.y + height < 0` is still false after this tick's movement.
pub open spec fn tick_keeps(
    a: ActiveEmote,
    host: Seq<HostTexture>,
    elapsed_ms: u64,
    surface_height: u32,
) -> bool {
    match inst_size(a, host) {
        None => true,
        Some(s) => stepped_y(a, elapsed_ms, surface_height) + s.1 * 1000 >= 0,
    }
}

/// The indices (from `i` on) of the sprites this tick keeps, in order.
pub open spec fn kept_from(
    olds: Seq<ActiveEmote>,
    host: Seq<HostTexture>,
    elapsed_ms: u64,
    surface_height: u32,
    i: int,
) -> Seq<int>
    decreases olds.len() - i,
{
    if i < 0 || i >= olds.len() {
        Seq::empty()
    } else if tick_keeps(olds[i], host, elapsed_ms, surface_height) {
        seq![i] + kept_from(olds, host, elapsed_ms, surface_height, i + 1)
    } else {
        kept_from(olds, host, elapsed_ms, surface_height, i + 1)
    }
}

/// The indices (from `i` on) of the sprites this tick keeps and also draws:
/// the kept sprites whose size is known.
pub open spec fn drawn_from(
    olds: Seq<ActiveEmote>,
    host: Seq<HostTexture>,
    elapsed_ms: u64,
    surface_height: u32,
    i: int,
) -> Seq<int>
    decreases olds.len() - i,
{
    if i < 0 || i >= olds.len() {
        Seq::empty()
    } else if tick_keeps(olds[i], host, elapsed_ms, surface_height) && inst_size(olds[i], host)
        is Some {
        seq![i] + drawn_from(olds, host, elapsed_ms, surface_height, i + 1)
    } else {
        drawn_from(olds, host, elapsed_ms, surface_height, i + 1)
    }
}

/// A sprite's vertical motion is monotonic downward-toward-the-top-edge:
/// for any positive elapsed time the tick's descent is strictly positive,
/// so a placed sprite's vertical coordinate strictly decreases on every
/// simulation step until the removal test fires.
pub proof fn lemma_descent_positive(a: ActiveEmote, elapsed_ms: u64)
    requires
        a.start_offset < 1000,
        0 < elapsed_ms <= 1_000_000,
    ensures
        tick_descent(a, elapsed_ms) > 0,
        a.position is Some && a.age_ms is Some ==> a.descent(elapsed_ms) == tick_descent(
            a,
            elapsed_ms,
        ),
{
    let sw_ = sway_wave_spec(a.start_offset, stepped_age(a, elapsed_ms));
    assert(-1000 <= sw_ <= 1000);
    let sp = SPEED_MILLI - 100 + (sw_ + 1000) / 10;
    assert(400 <= sp <= 600);
    assert(sp * elapsed_ms > 0) by (nonlinear_arith)
        requires
            400 <= sp <= 600,
            0 < elapsed_ms,
    ;
}

/// A sprite is removed on the exact tick on which its bottom edge crosses
/// the top boundary — `position.y + height < 0` after this tick's movement
/// — and never before: the kept indices are exactly those whose sprites
/// this tick's test keeps.
pub proof fn lemma_removal_exact(
    olds: Seq<ActiveEmote>,
    host: Seq<HostTexture>,
    elapsed_ms: u64,
    surface_height: u32,
    j: int,
)
    requires
        0 <= j < olds.len(),
    ensures
        kept_from(olds, host, elapsed_ms, surface_height, 0).contains(j) <==> tick_keeps(
            olds[j],
            host,
            elapsed_ms,
            surface_height,
        ),
{
    lemma_kept_from_contains(olds, host, elapsed_ms, surface_height, 0, j);
}

proof fn lemma_kept_from_contains(
    olds: Seq<ActiveEmote>,
    host: Seq<HostTexture>,
    elapsed_ms: u64,
    surface_height: u32,
    i: int,
    j: int,
)
    requires
        0 <= i <= j < olds.len(),
    ensures
        kept_from(olds, host, elapsed_ms, surface_height, i).contains(j) <==> tick_keeps(
            olds[j],
            host,
            elapsed_ms,
            surface_height,
        ),
    decreases olds.len() - i,
{
    let ks = kept_from(olds, host, elapsed_ms, surface_height, i);
    let rest = kept_from(olds, host, elapsed_ms, surface_height, i + 1);
    lemma_kept_from_lower_bound(olds, host, elapsed_ms, surface_height, i + 1);
    if i == j {
        if tick_keeps(olds[i], host, elapsed_ms, surface_height) {
            assert(ks[0] == i);
            assert(ks.contains(j));
        } else {
            assert(ks == rest);
            if ks.contains(j) {
                let k = choose|k: int| 0 <= k < ks.len() && ks[k] == j;
                assert(rest[k] == j);
                assert(i + 1 <= rest[k]);
                assert(false);
            }
        }
    } else {
        lemma_kept_from_contains(olds, host, elapsed_ms, surface_height, i + 1, j);
        if tick_keeps(olds[i], host, elapsed_ms, surface_height) {
            assert(ks =~= seq![i] + rest);
            if rest.contains(j) {
                let k = choose|k: int| 0 <= k < rest.len() && rest[k] == j;
                assert(ks[k + 1] == j);
                assert(ks.contains(j));
            }
            if ks.contains(j) {
                let k = choose|k: int| 0 <= k < ks.len() && ks[k] == j;
                assert(k > 0);
                assert(rest[k - 1] == j);
                assert(rest.contains(j));
            }
        } else {
            assert(ks == rest);
        }
    }
}

/// Every kept index from `i` on is at least `i`.
proof fn lemma_kept_from_lower_bound(
    olds: Seq<ActiveEmote>,
    host: Seq<HostTexture>,
    elapsed_ms: u64,
    surface_height: u32,
    i: int,
)
    ensures
        forall|k: int|
            0 <= k < kept_from(olds, host, elapsed_ms, surface_height, i).len() ==> i <= #[trigger]
                kept_from(olds, host, elapsed_ms, surface_height, i)[k] < olds.len(),
    decreases olds.len() - i,
{
    let ks = kept_from(olds, host, elapsed_ms, surface_height, i);
    if i < 0 || i >= olds.len() {
    } else {
        lemma_kept_from_lower_bound(olds, host, elapsed_ms, surface_height, i + 1);
        let rest = kept_from(olds, host, elapsed_ms, surface_height, i + 1);
        if tick_keeps(olds[i], host, elapsed_ms, surface_height) {
            assert forall|k: int| 0 <= k < ks.len() implies i <= #[trigger] ks[k] < olds.len() by {
                if k == 0 {
                    assert(ks[k] == i);
                } else {
                    assert(ks[k] == rest[k - 1]);
                }
            }
        } else {
            assert(ks == rest);
            assert forall|k: int| 0 <= k < ks.len() implies i <= #[trigger] ks[k] < olds.len() by {
                assert(ks[k] == rest[k]);
            }
        }
    }
}

/// How a layer relates to itself across a cache probe: the identifier never
/// changes; a layer that already had its animation keeps it untouched, and
/// one without gets a fresh playback state exactly when the cache holds a
/// ready animation under its identifier.
pub open spec fn layer_checked(
    post: EmoteLayer,
    pre: EmoteLayer,
    loaded: Seq<(String, Option<Gif>)>,
) -> bool {
    &&& post.identifier == pre.identifier
    &&& match pre.gif {
        Some(_) => post.gif == pre.gif,
        None => match cache_ready(loaded, pre.identifier@) {
            Some(g) => post.gif matches Some(st) && st.frames.frames@ == g.frames@
                && st.frames.width == g.width && st.frames.height == g.height && st.current_frame
                == 0 && st.shown_ms is None,
            None => post.gif is None,
        },
    }
}

/// How one kept sprite relates to its pre-tick self. A sprite whose base
/// size is unknown only probes the cache for its base animation; one whose
/// base is known but whose overlay's size is not only probes for the
/// overlay. A fully resolved sprite is placed if it was not yet — at the
/// bottom edge, horizontally inside the padded band — then falls by this
/// tick's descent, and the animation of each layer drawn as an animation
/// advances by this tick.
pub open spec fn tick_stepped(
    post: ActiveEmote,
    pre: ActiveEmote,
    loaded: Seq<(String, Option<Gif>)>,
    host: Seq<HostTexture>,
    elapsed_ms: u64,
    surface_width: u32,
    surface_height: u32,
) -> bool {
    if layer_size(pre.layers.0, host) is None {
        &&& layer_checked(post.layers.0, pre.layers.0, loaded)
        &&& post.layers.1 == pre.layers.1
        &&& post.position == pre.position
        &&& post.age_ms == pre.age_ms
        &&& post.start_offset == pre.start_offset
    } else if pre.layers.1 is Some && layer_size(pre.layers.1.unwrap(), host) is None {
        &&& post.layers.0 == pre.layers.0
        &&& (post.layers.1 matches Some(nl) && layer_checked(nl, pre.layers.1.unwrap(), loaded))
        &&& post.position == pre.position
        &&& post.age_ms == pre.age_ms
        &&& post.start_offset == pre.start_offset
    } else {
        &&& post.start_offset == pre.start_offset
        &&& post.age_ms == Some(stepped_age(pre, elapsed_ms))
        &&& (post.position matches Some(p) && p.1 == stepped_y(pre, elapsed_ms, surface_height))
        &&& (pre.position matches Some(q) ==> post.position.unwrap().0 == q.0)
        &&& (pre.position is None ==> in_spawn_band(
            post.position.unwrap().0 as int,
            inst_size(pre, host).unwrap().0,
            surface_width,
        ))
        &&& post.layers.0.identifier == pre.layers.0.identifier
        &&& if host_size(host, pre.layers.0.identifier@) is Some {
            post.layers.0.gif == pre.layers.0.gif
        } else {
            match pre.layers.0.gif {
                Some(g) => post.layers.0.gif matches Some(g2) && crate::giftex::ticked(
                    g,
                    g2,
                    elapsed_ms,
                ),
                None => post.layers.0.gif is None,
            }
        }
        &&& match pre.layers.1 {
            None => post.layers.1 is None,
            Some(ol) => post.layers.1 matches Some(nl) && nl.identifier == ol.identifier && if
                host_size(host, ol.identifier@) is Some {
                nl.gif == ol.gif
            } else {
                match ol.gif {
                    Some(g) => nl.gif matches Some(g2) && crate::giftex::ticked(g, g2, elapsed_ms),
                    None => nl.gif is None,
                }
            },
        }
    }
}

/// The band a fresh sprite's horizontal position is drawn from: a tenth of
/// the free width is reserved at each side, and the sprite is centered on
/// the chosen point.
pub open spec fn in_spawn_band(x: int, w: u32, surface_width: u32) -> bool {
    let fw = if surface_width * 1000 - w * 500 < 0 {
        0
    } else {
        surface_width * 1000 - w * 500
    };
    let lo = fw / 10;
    let hi = if fw - lo >= lo {
        fw - lo
    } else {
        lo
    };
    lo - w * 500 <= x <= hi - w * 500
}

/// One drawn sprite this tick: display position (the sideways sway folded
/// into `x`), overall size, and the texture handles of the layers.
pub struct DrawCommand {
    pub x: i64,
    pub y: i64,
    pub width: u32,
    pub height: u32,
    pub base_handle: u64,
    pub overlay_handle: Option<u64>,
}

/// What a draw command must say about the sprite it draws: the simulated
/// vertical position, the known overall size, still on the surface, and —
/// for a sprite that was already placed — the horizontal coordinate with
/// this tick's sway folded in, at an amplitude of a twentieth of the
/// surface width.
pub open spec fn draw_matches(
    d: DrawCommand,
    pre: ActiveEmote,
    host: Seq<HostTexture>,
    elapsed_ms: u64,
    surface_width: u32,
    surface_height: u32,
) -> bool {
    &&& d.y == stepped_y(pre, elapsed_ms, surface_height)
    &&& Some((d.width, d.height)) == inst_size(pre, host)
    &&& d.y + d.height * 1000 >= 0
    &&& (pre.position matches Some(q) ==> d.x == q.0 + sway_wave_spec(
        pre.start_offset,
        stepped_age(pre, elapsed_ms),
    ) * ((surface_width / 20) as int))
}


/// Looks an identifier up in the host's static texture cache.
fn find_host_texture<'a>(host: &'a Vec<HostTexture>, id: &String) -> (r: Option<&'a HostTexture>)
    ensures
        match r {
            None => host_size(host@, id@) is None,
            Some(t) => host_size(host@, id@) == Some(*t),
        },
{
    let mut i: usize = 0;
    proof {
        assert(host@.skip(0) =~= host@);
    }
    while i < host.len()
        invariant
            i <= host@.len(),
            host_size(host@.skip(i as int), id@) == host_size(host@, id@),
        decreases host@.len() - i,
    {
        proof {
            assert(host@.skip(i as int)[0] == host@[i as int]);
            assert(host@.skip(i as int).drop_first() =~= host@.skip(i as int + 1));
        }
        if host[i].identifier.eq(id) {
            return Some(&host[i]);
        }
        i += 1;
    }
    proof {
        assert(host@.skip(host@.len() as int) =~= Seq::<HostTexture>::empty());
    }
    None
}

/// Looks a ready animation up in the texture cache; pending entries do not
/// count.
fn find_ready_gif<'a>(loaded: &'a Vec<(String, Option<Gif>)>, id: &String) -> (r: Option<&'a Gif>)
    ensures
        match r {
            None => cache_ready(loaded@, id@) is None,
            Some(g) => cache_ready(loaded@, id@) == Some(*g),
        },
{
    let mut i: usize = 0;
    proof {
        assert(loaded@.skip(0) =~= loaded@);
    }
    while i < loaded.len()
        invariant
            i <= loaded@.len(),
            cache_ready(loaded@.skip(i as int), id@) == cache_ready(loaded@, id@),
        decreases loaded@.len() - i,
    {
        proof {
            assert(loaded@.skip(i as int)[0] == loaded@[i as int]);
            assert(loaded@.skip(i as int).drop_first() =~= loaded@.skip(i as int + 1));
        }
        if loaded[i].0.eq(id) {
            match &loaded[i].1 {
                Some(g) => {
                    return Some(g);
                },
                None => {},
            }
        }
        i += 1;
    }
    proof {
        assert(loaded@.skip(loaded@.len() as int) =~= Seq::<(String, Option<Gif>)>::empty());
    }
    None
}

/// Probes the texture cache for a layer still missing its animation and
/// attaches a fresh playback state when a ready one is there.
fn check_gif(layer: &mut EmoteLayer, loaded: &Vec<(String, Option<Gif>)>)
    ensures
        layer_checked(*final(layer), *old(layer), loaded@),
{
    match &layer.gif {
        Some(_) => {},
        None => {
            match find_ready_gif(loaded, &layer.identifier) {
                Some(g) => {
                    layer.gif = Some(GifState::new(g.duplicate()));
                },
                None => {},
            }
        },
    }
}

/// Resolves the drawable size of a sprite: the host texture or the attached
/// animation of each layer. A layer whose size is not known yet leaves the
/// sprite unresolved for this tick; exactly that layer is probed against
/// the cache so a finished decode attaches, and nothing else moves.
fn get_textures(
    inst: &mut ActiveEmote,
    loaded: &Vec<(String, Option<Gif>)>,
    host: &Vec<HostTexture>,
) -> (r: Option<(u32, u32)>)
    ensures
        r == inst_size(*old(inst), host@),
        r is None ==> if layer_size(old(inst).layers.0, host@) is None {
            &&& layer_checked(final(inst).layers.0, old(inst).layers.0, loaded@)
            &&& final(inst).layers.1 == old(inst).layers.1
            &&& final(inst).position == old(inst).position
            &&& final(inst).age_ms == old(inst).age_ms
            &&& final(inst).start_offset == old(inst).start_offset
        } else {
            &&& final(inst).layers.0 == old(inst).layers.0
            &&& (final(inst).layers.1 matches Some(nl) && layer_checked(
                nl,
                old(inst).layers.1.unwrap(),
                loaded@,
            ))
            &&& final(inst).position == old(inst).position
            &&& final(inst).age_ms == old(inst).age_ms
            &&& final(inst).start_offset == old(inst).start_offset
        },
        r is Some ==> *final(inst) == *old(inst),
{
    let base_size: Option<(u32, u32)> = match find_host_texture(host, &inst.layers.0.identifier) {
        Some(t) => Some((t.width, t.height)),
        None => match &inst.layers.0.gif {
            Some(st) => Some((st.frames.width, st.frames.height)),
            None => None,
        },
    };
    let (bw, bh) = match base_size {
        Some(s) => s,
        None => {
            check_gif(&mut inst.layers.0, loaded);
            return None;
        },
    };
    let has_overlay = match &inst.layers.1 {
        Some(_) => true,
        None => false,
    };
    if !has_overlay {
        return Some((bw, bh));
    }
    let overlay_size: Option<(u32, u32)> = match &inst.layers.1 {
        Some(ol) => match find_host_texture(host, &ol.identifier) {
            Some(t) => Some((t.width, t.height)),
            None => match &ol.gif {
                Some(st) => Some((st.frames.width, st.frames.height)),
                None => None,
            },
        },
        None => None,
    };
    match overlay_size {
        Some((ow, oh)) => Some(
            (
                if ow > bw {
                    ow
                } else {
                    bw
                },
                if oh > bh {
                    oh
                } else {
                    bh
                },
            ),
        ),
        None => {
            match &mut inst.layers.1 {
                Some(ol) => {
                    check_gif(ol, loaded);
                },
                None => {},
            }
            None
        },
    }
}


impl Overlay {
    /// One render-thread frame of the simulation. Every sprite whose size is
    /// not known yet is kept untouched (only probing the cache so a finished
    /// decode can attach); every resolved sprite is placed if it was not yet,
    /// falls by this tick's descent, and is removed on the exact tick where
    /// `position.y + height < 0` becomes true — never before. Survivors keep
    /// their relative order; each drawn sprite yields one draw command. The
    /// catalog, settings, caches and the work queue are untouched.
    pub fn tick(
        &mut self,
        elapsed_ms: u64,
        surface_width: u32,
        surface_height: u32,
        host_textures: &Vec<HostTexture>,
    ) -> (draws: Vec<DrawCommand>)
        requires
            old(self).sprites_bounded(),
            elapsed_ms <= 1_000_000,
            surface_width <= 1_000_000,
            surface_height <= 1_000_000,
        ensures
            final(self).settings == old(self).settings,
            final(self).emote_sets == old(self).emote_sets,
            final(self).loaded_emotes == old(self).loaded_emotes,
            final(self).texture_queue == old(self).texture_queue,
            final(self).worker == old(self).worker,
            final(self).sprites_bounded(),
            ({
                let kept = kept_from(
                    old(self).active_emotes@,
                    host_textures@,
                    elapsed_ms,
                    surface_height,
                    0,
                );
                &&& final(self).active_emotes@.len() == kept.len()
                &&& forall|k: int|
                    0 <= k < kept.len() ==> tick_stepped(
                        #[trigger] final(self).active_emotes@[k],
                        old(self).active_emotes@[kept[k]],
                        old(self).loaded_emotes@,
                        host_textures@,
                        elapsed_ms,
                        surface_width,
                        surface_height,
                    )
            }),
            ({
                let drawn = drawn_from(
                    old(self).active_emotes@,
                    host_textures@,
                    elapsed_ms,
                    surface_height,
                    0,
                );
                &&& draws@.len() == drawn.len()
                &&& forall|k: int|
                    0 <= k < drawn.len() ==> draw_matches(
                        #[trigger] draws@[k],
                        old(self).active_emotes@[drawn[k]],
                        host_textures@,
                        elapsed_ms,
                        surface_width,
                        surface_height,
                    )
            }),
    {
        let ghost olds_seq = self.active_emotes@;
        let ghost loaded_v = self.loaded_emotes@;
        let ghost host_v = host_textures@;
        let ghost kk = kept_from(olds_seq, host_v, elapsed_ms, surface_height, 0);
        let ghost dd = drawn_from(olds_seq, host_v, elapsed_ms, surface_height, 0);
        let mut olds: Vec<ActiveEmote> = Vec::new();
        core::mem::swap(&mut olds, &mut self.active_emotes);
        let mut draws: Vec<DrawCommand> = Vec::new();
        let n0 = olds.len();
        let mut taken: usize = 0;
        proof {
            assert(olds_seq.skip(0) =~= olds_seq);
            lemma_kept_from_lower_bound(olds_seq, host_v, elapsed_ms, surface_height, 0);
            lemma_drawn_from_lower_bound(olds_seq, host_v, elapsed_ms, surface_height, 0);
            assert(kk.take(0) + kept_from(olds_seq, host_v, elapsed_ms, surface_height, 0) =~= kk);
            assert(dd.take(0) + drawn_from(olds_seq, host_v, elapsed_ms, surface_height, 0) =~= dd);
        }
        while olds.len() > 0
            invariant
                taken <= n0,
                olds_seq.len() == n0,
                olds@ =~= olds_seq.skip(taken as int),
                olds_seq == old(self).active_emotes@,
                loaded_v == old(self).loaded_emotes@,
                host_v == host_textures@,
                elapsed_ms <= 1_000_000,
                surface_width <= 1_000_000,
                surface_height <= 1_000_000,
                old(self).sprites_bounded(),
                self.settings == old(self).settings,
                self.emote_sets == old(self).emote_sets,
                self.loaded_emotes == old(self).loaded_emotes,
                self.texture_queue == old(self).texture_queue,
                self.worker == old(self).worker,
                kk == kept_from(olds_seq, host_v, elapsed_ms, surface_height, 0),
                dd == drawn_from(olds_seq, host_v, elapsed_ms, surface_height, 0),
                forall|k: int| 0 <= k < kk.len() ==> 0 <= #[trigger] kk[k] < olds_seq.len(),
                forall|k: int| 0 <= k < dd.len() ==> 0 <= #[trigger] dd[k] < olds_seq.len(),
                self.active_emotes@.len() + kept_from(
                    olds_seq,
                    host_v,
                    elapsed_ms,
                    surface_height,
                    taken as int,
                ).len() == kk.len(),
                kk.take(self.active_emotes@.len() as int) + kept_from(
                    olds_seq,
                    host_v,
                    elapsed_ms,
                    surface_height,
                    taken as int,
                ) == kk,
                forall|k: int|
                    0 <= k < self.active_emotes@.len() ==> tick_stepped(
                        #[trigger] self.active_emotes@[k],
                        olds_seq[kk[k]],
                        loaded_v,
                        host_v,
                        elapsed_ms,
                        surface_width,
                        surface_height,
                    ),
                forall|k: int|
                    0 <= k < self.active_emotes@.len() ==> (#[trigger] self.active_emotes@[k]).bounded(),
                draws@.len() + drawn_from(
                    olds_seq,
                    host_v,
                    elapsed_ms,
                    surface_height,
                    taken as int,
                ).len() == dd.len(),
                dd.take(draws@.len() as int) + drawn_from(
                    olds_seq,
                    host_v,
                    elapsed_ms,
                    surface_height,
                    taken as int,
                ) == dd,
                forall|k: int|
                    0 <= k < draws@.len() ==> draw_matches(
                        #[trigger] draws@[k],
                        olds_seq[dd[k]],
                        host_v,
                        elapsed_ms,
                        surface_width,
                        surface_height,
                    ),
            decreases olds@.len(),
        {
            proof {
                assert(olds_seq.skip(taken as int)[0] == olds_seq[taken as int]);
                assert(olds_seq.skip(taken as int).drop_first() =~= olds_seq.skip(taken as int + 1));
            }
            let mut inst = olds.remove(0);
            proof {
                assert(olds@ =~= olds_seq.skip(taken as int + 1));
                assert(inst == olds_seq[taken as int]);
                assert(olds_seq[taken as int].bounded());
            }
            let ghost pre = inst;
            let ghost kept_suffix = kept_from(olds_seq, host_v, elapsed_ms, surface_height, taken as int);
            let ghost drawn_suffix = drawn_from(olds_seq, host_v, elapsed_ms, surface_height, taken as int);
            match get_textures(&mut inst, &self.loaded_emotes, host_textures) {
                None => {
                    let ghost n_prev = self.active_emotes@.len() as int;
                    self.active_emotes.push(inst);
                    proof {
                        assert(tick_keeps(pre, host_v, elapsed_ms, surface_height));
                        assert(kept_suffix == seq![taken as int] + kept_from(
                            olds_seq,
                            host_v,
                            elapsed_ms,
                            surface_height,
                            taken as int + 1,
                        ));
                        assert(kk[n_prev] == taken as int) by {
                            assert((kk.take(n_prev) + kept_suffix)[n_prev] == kept_suffix[0]);
                        }
                        assert(kk.take(n_prev + 1) =~= kk.take(n_prev).push(taken as int));
                        assert(kk.take(n_prev + 1) + kept_from(
                            olds_seq,
                            host_v,
                            elapsed_ms,
                            surface_height,
                            taken as int + 1,
                        ) =~= kk);
                        assert(tick_stepped(
                            self.active_emotes@[n_prev],
                            pre,
                            loaded_v,
                            host_v,
                            elapsed_ms,
                            surface_width,
                            surface_height,
                        ));
                        assert(self.active_emotes@[n_prev].bounded());
                        assert(drawn_suffix == drawn_from(
                            olds_seq,
                            host_v,
                            elapsed_ms,
                            surface_height,
                            taken as int + 1,
                        ));
                    }
                },
                Some((w, h)) => {
                    let placed = match inst.position {
                        Some(_) => true,
                        None => false,
                    };
                    if !placed {
                        let fw_raw: i64 = (surface_width as i64) * 1000 - (w as i64) * 500;
                        let fw: i64 = if fw_raw < 0 {
                            0
                        } else {
                            fw_raw
                        };
                        let lo: i64 = fw / 10;
                        let hi: i64 = if fw - lo >= lo {
                            fw - lo
                        } else {
                            lo
                        };
                        let x_point = random_in_range(lo as u64, hi as u64) as i64;
                        let x = x_point - (w as i64) * 500;
                        inst.position = Some((x, (surface_height as i64) * 1000));
                    }
                    let aged = match inst.age_ms {
                        Some(_) => true,
                        None => false,
                    };
                    if !aged {
                        inst.age_ms = Some(0);
                    }
                    proof {
                        assert(inst.bounded());
                        assert(inst.descent(elapsed_ms) == tick_descent(pre, elapsed_ms));
                    }
                    inst.simulate(elapsed_ms);
                    proof {
                        assert(inst.position.unwrap().1 == stepped_y(pre, elapsed_ms, surface_height));
                        assert(inst.age_ms == Some(stepped_age(pre, elapsed_ms)));
                        let sw_ = sway_wave_spec(pre.start_offset, stepped_age(pre, elapsed_ms));
                        assert(-1000 <= sw_ <= 1000);
                        let sp = SPEED_MILLI - 100 + (sw_ + 1000) / 10;
                        assert(400 <= sp <= 600);
                        assert(0 <= sp * elapsed_ms <= 600_000_000) by (nonlinear_arith)
                            requires
                                400 <= sp <= 600,
                                0 <= elapsed_ms <= 1_000_000,
                        ;
                        assert(tick_descent(pre, elapsed_ms) == sp * elapsed_ms);
                    }
                    let remove = inst.should_remove(h);
                    proof {
                        assert(remove == !tick_keeps(pre, host_v, elapsed_ms, surface_height));
                    }
                    if remove {
                        proof {
                            assert(kept_suffix == kept_from(
                                olds_seq,
                                host_v,
                                elapsed_ms,
                                surface_height,
                                taken as int + 1,
                            ));
                            assert(drawn_suffix == drawn_from(
                                olds_seq,
                                host_v,
                                elapsed_ms,
                                surface_height,
                                taken as int + 1,
                            ));
                        }
                    } else {
                        let base_handle: u64 = match find_host_texture(
                            host_textures,
                            &inst.layers.0.identifier,
                        ) {
                            Some(t) => t.id,
                            None => match &mut inst.layers.0.gif {
                                Some(g) => match g.tick_frame(elapsed_ms) {
                                    Some(hd) => hd,
                                    None => 0,
                                },
                                None => 0,
                            },
                        };
                        let mut overlay_handle: Option<u64> = None;
                        match &mut inst.layers.1 {
                            Some(ol) => {
                                let oh: u64 = match find_host_texture(host_textures, &ol.identifier) {
                                    Some(t) => t.id,
                                    None => match &mut ol.gif {
                                        Some(g) => match g.tick_frame(elapsed_ms) {
                                            Some(hd) => hd,
                                            None => 0,
                                        },
                                        None => 0,
                                    },
                                };
                                overlay_handle = Some(oh);
                            },
                            None => {},
                        }
                        let pos = inst.get_position((surface_width / 20) as i64);
                        let ghost n_prev = self.active_emotes@.len() as int;
                        let ghost d_prev = draws@.len() as int;
                        draws.push(
                            DrawCommand {
                                x: pos.0,
                                y: pos.1,
                                width: w,
                                height: h,
                                base_handle,
                                overlay_handle,
                            },
                        );
                        self.active_emotes.push(inst);
                        proof {
                            assert(tick_keeps(pre, host_v, elapsed_ms, surface_height));
                            assert(kept_suffix == seq![taken as int] + kept_from(
                                olds_seq,
                                host_v,
                                elapsed_ms,
                                surface_height,
                                taken as int + 1,
                            ));
                            assert(kk[n_prev] == taken as int) by {
                                assert((kk.take(n_prev) + kept_suffix)[n_prev] == kept_suffix[0]);
                            }
                            assert(kk.take(n_prev + 1) =~= kk.take(n_prev).push(taken as int));
                            assert(kk.take(n_prev + 1) + kept_from(
                                olds_seq,
                                host_v,
                                elapsed_ms,
                                surface_height,
                                taken as int + 1,
                            ) =~= kk);
                            assert(tick_stepped(
                                self.active_emotes@[n_prev],
                                pre,
                                loaded_v,
                                host_v,
                                elapsed_ms,
                                surface_width,
                                surface_height,
                            ));
                            assert(self.active_emotes@[n_prev].bounded());
                            assert(drawn_suffix == seq![taken as int] + drawn_from(
                                olds_seq,
                                host_v,
                                elapsed_ms,
                                surface_height,
                                taken as int + 1,
                            ));
                            assert(dd[d_prev] == taken as int) by {
                                assert((dd.take(d_prev) + drawn_suffix)[d_prev] == drawn_suffix[0]);
                            }
                            assert(dd.take(d_prev + 1) =~= dd.take(d_prev).push(taken as int));
                            assert(dd.take(d_prev + 1) + drawn_from(
                                olds_seq,
                                host_v,
                                elapsed_ms,
                                surface_height,
                                taken as int + 1,
                            ) =~= dd);
                            assert(draw_matches(
                                draws@[d_prev],
                                pre,
                                host_v,
                                elapsed_ms,
                                surface_width,
                                surface_height,
                            ));
                        }
                    }
                },
            }
            taken += 1;
        }
        proof {
            assert(kept_from(olds_seq, host_v, elapsed_ms, surface_height, n0 as int)
                =~= Seq::<int>::empty());
            assert(drawn_from(olds_seq, host_v, elapsed_ms, surface_height, n0 as int)
                =~= Seq::<int>::empty());
            assert(kk.take(self.active_emotes@.len() as int) =~= kk);
            assert(dd.take(draws@.len() as int) =~= dd);
        }
        draws
    }
}

/// Every drawn index from `i` on is at least `i`.
proof fn lemma_drawn_from_lower_bound(
    olds: Seq<ActiveEmote>,
    host: Seq<HostTexture>,
    elapsed_ms: u64,
    surface_height: u32,
    i: int,
)
    ensures
        forall|k: int|
            0 <= k < drawn_from(olds, host, elapsed_ms, surface_height, i).len() ==> i <= #[trigger]
                drawn_from(olds, host, elapsed_ms, surface_height, i)[k] < olds.len(),
    decreases olds.len() - i,
{
    let ks = drawn_from(olds, host, elapsed_ms, surface_height, i);
    if i < 0 || i >= olds.len() {
    } else {
        lemma_drawn_from_lower_bound(olds, host, elapsed_ms, surface_height, i + 1);
        let rest = drawn_from(olds, host, elapsed_ms, surface_height, i + 1);
        if tick_keeps(olds[i], host, elapsed_ms, surface_height) && inst_size(olds[i], host)
            is Some {
            assert forall|k: int| 0 <= k < ks.len() implies i <= #[trigger] ks[k] < olds.len() by {
                if k == 0 {
                    assert(ks[k] == i);
                } else {
                    assert(ks[k] == rest[k - 1]);
                }
            }
        } else {
            assert(ks == rest);
            assert forall|k: int| 0 <= k < ks.len() implies i <= #[trigger] ks[k] < olds.len() by {
                assert(ks[k] == rest[k]);
            }
        }
    }
}


/// A token that matches nothing in the catalog contributes nothing: no
/// sprite, no cache entry, no job, no request.
pub proof fn lemma_unmatched_token_inert(
    st: MatchEffects,
    loaded0: Seq<Seq<char>>,
    emotes: Seq<crate::seventv::FlatView>,
    tok: Seq<char>,
)
    requires
        forall|i: int| 0 <= i < emotes.len() ==> (#[trigger] emotes[i]).name != tok,
    ensures
        run_emotes(st, loaded0, emotes, tok) == st,
    decreases emotes.len(),
{
    if emotes.len() == 0 {
    } else {
        assert(step_emote(st, loaded0, emotes[0], tok) == st);
        assert forall|i: int| 0 <= i < emotes.drop_first().len() implies (#[trigger] emotes.drop_first()[i]).name
            != tok by {
            assert(emotes.drop_first()[i] == emotes[i + 1]);
        }
        lemma_unmatched_token_inert(st, loaded0, emotes.drop_first(), tok);
    }
}

/// A token whose only catalog match is a single non-zero-width entry spawns
/// exactly one new sprite, with base identifier `EMOTE_` + token and no
/// overlay, on top of whatever was spawned before.
pub proof fn lemma_single_match_spawns(
    st: MatchEffects,
    loaded0: Seq<Seq<char>>,
    emotes: Seq<crate::seventv::FlatView>,
    tok: Seq<char>,
    m: int,
)
    requires
        0 <= m < emotes.len(),
        emotes[m].name == tok,
        !emotes[m].zero_width,
        forall|i: int| 0 <= i < emotes.len() && i != m ==> (#[trigger] emotes[i]).name != tok,
    ensures
        run_emotes(st, loaded0, emotes, tok).spawned == st.spawned.push(
            SpawnView { base: emote_identifier(tok), overlay: None },
        ),
    decreases emotes.len(),
{
    let rest = emotes.drop_first();
    assert forall|i: int| 0 <= i < rest.len() && i != m - 1 implies (#[trigger] rest[i]).name
        != tok by {
        assert(rest[i] == emotes[i + 1]);
    }
    if m == 0 {
        let st1 = step_emote(st, loaded0, emotes[0], tok);
        assert(st1.spawned == st.spawned.push(
            SpawnView { base: emote_identifier(tok), overlay: None },
        ));
        assert forall|i: int| 0 <= i < rest.len() implies (#[trigger] rest[i]).name != tok by {
            assert(rest[i] == emotes[i + 1]);
        }
        lemma_unmatched_token_inert(st1, loaded0, rest, tok);
    } else {
        assert(emotes[0].name != tok);
        assert(step_emote(st, loaded0, emotes[0], tok) == st);
        assert(rest[m - 1] == emotes[m]);
        lemma_single_match_spawns(st, loaded0, rest, tok, m - 1);
    }
}

/// A token whose only catalog match is a single zero-width entry, arriving
/// while this message has already spawned at least one sprite, spawns
/// nothing: the most recently spawned sprite's overlay becomes this emote
/// (replacing any previous overlay), and every earlier sprite is untouched.
pub proof fn lemma_zero_width_attaches(
    st: MatchEffects,
    loaded0: Seq<Seq<char>>,
    emotes: Seq<crate::seventv::FlatView>,
    tok: Seq<char>,
    m: int,
)
    requires
        0 <= m < emotes.len(),
        emotes[m].name == tok,
        emotes[m].zero_width,
        forall|i: int| 0 <= i < emotes.len() && i != m ==> (#[trigger] emotes[i]).name != tok,
        st.spawned.len() > 0,
    ensures
        run_emotes(st, loaded0, emotes, tok).spawned == st.spawned.update(
            st.spawned.len() - 1,
            SpawnView { base: st.spawned.last().base, overlay: Some(emote_identifier(tok)) },
        ),
    decreases emotes.len(),
{
    let rest = emotes.drop_first();
    assert forall|i: int| 0 <= i < rest.len() && i != m - 1 implies (#[trigger] rest[i]).name
        != tok by {
        assert(rest[i] == emotes[i + 1]);
    }
    if m == 0 {
        let st1 = step_emote(st, loaded0, emotes[0], tok);
        assert(st1.spawned == st.spawned.update(
            st.spawned.len() - 1,
            SpawnView { base: st.spawned.last().base, overlay: Some(emote_identifier(tok)) },
        ));
        assert forall|i: int| 0 <= i < rest.len() implies (#[trigger] rest[i]).name != tok by {
            assert(rest[i] == emotes[i + 1]);
        }
        lemma_unmatched_token_inert(st1, loaded0, rest, tok);
    } else {
        assert(emotes[0].name != tok);
        assert(step_emote(st, loaded0, emotes[0], tok) == st);
        assert(rest[m - 1] == emotes[m]);
        lemma_zero_width_attaches(st, loaded0, rest, tok, m - 1);
    }
}

/// A zero-width token attaches to the nearest preceding successful match of
/// the same message even when the token straight before it matched nothing:
/// running an unmatched token and then the zero-width token attaches the
/// zero-width emote onto the most recently spawned sprite, and spawns
/// nothing new.
pub proof fn lemma_attach_skips_unmatched(
    st: MatchEffects,
    loaded0: Seq<Seq<char>>,
    emotes: Seq<crate::seventv::FlatView>,
    tok_unmatched: Seq<char>,
    tok_zero_width: Seq<char>,
    m: int,
)
    requires
        forall|i: int| 0 <= i < emotes.len() ==> (#[trigger] emotes[i]).name != tok_unmatched,
        0 <= m < emotes.len(),
        emotes[m].name == tok_zero_width,
        emotes[m].zero_width,
        forall|i: int|
            0 <= i < emotes.len() && i != m ==> (#[trigger] emotes[i]).name != tok_zero_width,
        st.spawned.len() > 0,
    ensures
        run_tokens(st, loaded0, emotes, seq![tok_unmatched, tok_zero_width]).spawned
            == st.spawned.update(
            st.spawned.len() - 1,
            SpawnView {
                base: st.spawned.last().base,
                overlay: Some(emote_identifier(tok_zero_width)),
            },
        ),
{
    let toks = seq![tok_unmatched, tok_zero_width];
    assert(toks[0] == tok_unmatched);
    assert(toks.drop_first() =~= seq![tok_zero_width]);
    lemma_unmatched_token_inert(st, loaded0, emotes, tok_unmatched);
    let toks1 = seq![tok_zero_width];
    assert(toks1[0] == tok_zero_width);
    assert(toks1.drop_first() =~= Seq::<Seq<char>>::empty());
    lemma_zero_width_attaches(st, loaded0, emotes, tok_zero_width, m);
    let after_zw = run_emotes(st, loaded0, emotes, tok_zero_width);
    assert(run_tokens(after_zw, loaded0, emotes, Seq::<Seq<char>>::empty()) == after_zw);
    assert(run_tokens(st, loaded0, emotes, toks1) == after_zw);
    assert(run_tokens(st, loaded0, emotes, toks) == run_tokens(
        run_emotes(st, loaded0, emotes, tok_unmatched),
        loaded0,
        emotes,
        toks1,
    ));
}

/// Everything in the flattened catalog after a page removal was already in
/// the flattened catalog before it.
proof fn lemma_flat_remove_subset(sets: Seq<EmoteSet>, id: Seq<char>)
    ensures
        forall|x: crate::seventv::FlatView|
            crate::seventv::flat_view_of(crate::seventv::remove_set_spec(sets, id)).contains(x)
                ==> #[trigger] crate::seventv::flat_view_of(sets).contains(x),
    decreases sets.len(),
{
    if sets.len() == 0 {
    } else {
        lemma_flat_remove_subset(sets.drop_first(), id);
        let whole = crate::seventv::flat_view_of(sets);
        let rest = crate::seventv::flat_view_of(sets.drop_first());
        let removed = crate::seventv::flat_view_of(crate::seventv::remove_set_spec(sets, id));
        assert(whole == crate::seventv::set_flat(sets[0]) + rest);
        assert forall|x: crate::seventv::FlatView| rest.contains(x) implies whole.contains(x) by {
            let k = choose|k: int| 0 <= k < rest.len() && rest[k] == x;
            assert(whole[crate::seventv::set_flat(sets[0]).len() + k] == x);
        }
        if sets[0].id@ == id {
            assert(removed == crate::seventv::flat_view_of(
                crate::seventv::remove_set_spec(sets.drop_first(), id),
            ));
        } else {
            let kept_rest = crate::seventv::flat_view_of(
                crate::seventv::remove_set_spec(sets.drop_first(), id),
            );
            let cons = seq![sets[0]] + crate::seventv::remove_set_spec(sets.drop_first(), id);
            assert(crate::seventv::remove_set_spec(sets, id) == cons);
            assert(cons[0] == sets[0]);
            assert(cons.drop_first() =~= crate::seventv::remove_set_spec(sets.drop_first(), id));
            assert(removed == crate::seventv::set_flat(sets[0]) + kept_rest);
            assert forall|x: crate::seventv::FlatView| removed.contains(x) implies whole.contains(
                x,
            ) by {
                let k = choose|k: int| 0 <= k < removed.len() && removed[k] == x;
                if k < crate::seventv::set_flat(sets[0]).len() {
                    assert(whole[k] == x);
                } else {
                    assert(kept_rest.contains(x)) by {
                        assert(kept_rest[k - crate::seventv::set_flat(sets[0]).len()] == x);
                    }
                    assert(rest.contains(x));
                }
            }
        }
    }
}

/// Once a catalog page is removed, a token whose emotes all came from that
/// page can never act again: scanning it against the remaining catalog does
/// nothing at all.
pub proof fn lemma_removed_set_token_inert(
    st: MatchEffects,
    loaded0: Seq<Seq<char>>,
    sets: Seq<EmoteSet>,
    id: Seq<char>,
    tok: Seq<char>,
)
    requires
        forall|i: int|
            0 <= i < crate::seventv::flat_view_of(sets).len() && (#[trigger] crate::seventv::flat_view_of(
                sets,
            )[i]).name == tok ==> crate::seventv::flat_view_of(sets)[i].set_id == id,
    ensures
        run_emotes(
            st,
            loaded0,
            crate::seventv::flat_view_of(crate::seventv::remove_set_spec(sets, id)),
            tok,
        ) == st,
{
    let remaining = crate::seventv::flat_view_of(crate::seventv::remove_set_spec(sets, id));
    crate::seventv::lemma_remove_set_removes_matches(sets, id);
    lemma_flat_remove_subset(sets, id);
    assert forall|i: int| 0 <= i < remaining.len() implies (#[trigger] remaining[i]).name != tok by {
        assert(remaining.contains(remaining[i]));
        assert(crate::seventv::flat_view_of(sets).contains(remaining[i]));
        let k = choose|k: int|
            0 <= k < crate::seventv::flat_view_of(sets).len() && crate::seventv::flat_view_of(
                sets,
            )[k] == remaining[i];
        assert(remaining[i].set_id != id);
        if remaining[i].name == tok {
            assert(crate::seventv::flat_view_of(sets)[k].set_id == id);
            assert(false);
        }
    }
    lemma_unmatched_token_inert(st, loaded0, remaining, tok);
}

} // verus!
