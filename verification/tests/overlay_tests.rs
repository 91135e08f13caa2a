use nexus_emotes::background::WorkItem;
use nexus_emotes::giftex::{decode_gif, Gif, GifError, GifFrame, GifState, RawGif};
use nexus_emotes::settings::{ChatMessageSource, Diff, Settings};
use nexus_emotes::seventv::{Emote, EmoteData, EmoteSet, File, FileFormat, Host, Owner};
use nexus_emotes::chat_events::{DecodeError, GloballyUniqueIdentifier, RawChatEvent};
use nexus_emotes::chat_message::{ExtrasChannel, ExtrasMessageInfo};
use nexus_emotes::timestamp::{SystemTimeParts, Timestamp};
use nexus_emotes::{ActiveEmote, EmoteLayer, HostTexture, Overlay};

fn owner() -> Owner {
    Owner {
        id: "owner1".to_string(),
        username: "someone".to_string(),
        display_name: "Someone".to_string(),
        avatar_url: String::new(),
        roles: Vec::new(),
    }
}

fn emote(name: &str, zero_width: bool, animated: bool) -> Emote {
    Emote {
        id: format!("id_{name}"),
        name: name.to_string(),
        flags: if zero_width { 1 } else { 0 },
        timestamp: 0,
        data: EmoteData {
            id: format!("id_{name}"),
            name: name.to_string(),
            state: Vec::new(),
            listed: true,
            animated,
            owner: owner(),
            host: Host {
                url: format!("//cdn.7tv.app/emote/id_{name}"),
                files: vec![
                    File {
                        name: "1x.avif".to_string(),
                        static_name: "1x_static.avif".to_string(),
                        width: 32,
                        height: 32,
                        frame_count: 1,
                        size: 100,
                        format: FileFormat::Avif,
                    },
                    File {
                        name: if animated { "2x.gif" } else { "2x.png" }.to_string(),
                        static_name: "2x_static.png".to_string(),
                        width: 64,
                        height: 64,
                        frame_count: 1,
                        size: 100,
                        format: if animated {
                            FileFormat::Gif
                        } else {
                            FileFormat::Png
                        },
                    },
                ],
            },
        },
    }
}

fn set_with(id: &str, emotes: Vec<Emote>) -> EmoteSet {
    EmoteSet {
        id: id.to_string(),
        name: format!("set {id}"),
        flags: 0,
        immutable: false,
        privileged: false,
        emotes,
        emote_count: 0,
        capacity: 100,
        owner: owner(),
    }
}

fn overlay_with(sets: Vec<EmoteSet>) -> Overlay {
    let mut o = Overlay::load(Settings::get());
    o.set_emote_sets(sets);
    o
}

#[test]
fn load_queues_the_initial_catalog_refresh() {
    let mut settings = Settings::get();
    settings.emote_set_ids.push("abc".to_string());
    let mut o = Overlay::load(settings);
    match o.worker.take_next() {
        Some(WorkItem::RefreshSets { ids, use_global }) => {
            assert_eq!(ids, vec!["abc".to_string()]);
            assert!(use_global);
        }
        other => panic!("expected the initial refresh job, got {other:?}"),
    }
    assert!(o.worker.take_next().is_none());
}

#[test]
fn matched_token_spawns_one_instance_with_its_identifier() {
    let mut o = overlay_with(vec![set_with("s1", vec![emote("PogChamp", false, false)])]);
    let reqs = o.process_message("gg PogChamp");
    assert_eq!(o.active_emotes.len(), 1);
    assert_eq!(o.active_emotes[0].layers.0.identifier, "EMOTE_PogChamp");
    assert!(o.active_emotes[0].layers.1.is_none());
    assert!(o.active_emotes[0].position.is_none());
    assert!(o.active_emotes[0].start_offset < 1000);
    // the static load goes through the real URL parser
    assert_eq!(reqs.len(), 1);
    assert_eq!(reqs[0].identifier, "EMOTE_PogChamp");
    assert_eq!(reqs[0].origin, "https://cdn.7tv.app");
    assert_eq!(reqs[0].path, "/emote/id_PogChamp/2x.png");
    // the cache now holds the identifier as pending
    assert_eq!(o.loaded_emotes.len(), 1);
    assert_eq!(o.loaded_emotes[0].0, "EMOTE_PogChamp");
    assert!(o.loaded_emotes[0].1.is_none());
}

#[test]
fn zero_width_token_attaches_to_the_previous_match() {
    let mut o = overlay_with(vec![set_with(
        "s1",
        vec![emote("PogChamp", false, false), emote(":tf:", true, false)],
    )]);
    o.process_message("PogChamp :tf:");
    assert_eq!(o.active_emotes.len(), 1);
    assert_eq!(o.active_emotes[0].layers.0.identifier, "EMOTE_PogChamp");
    let overlay = o.active_emotes[0].layers.1.as_ref().expect("overlay attached");
    assert_eq!(overlay.identifier, "EMOTE_:tf:");
}

#[test]
fn zero_width_token_skips_intervening_unmatched_tokens() {
    let mut o = overlay_with(vec![set_with(
        "s1",
        vec![emote("PogChamp", false, false), emote(":tf:", true, false)],
    )]);
    o.process_message("PogChamp xyzzy :tf:");
    assert_eq!(o.active_emotes.len(), 1);
    let overlay = o.active_emotes[0].layers.1.as_ref().expect("overlay attached");
    assert_eq!(overlay.identifier, "EMOTE_:tf:");
}

#[test]
fn zero_width_token_with_no_previous_match_spawns_its_own_instance() {
    let mut o = overlay_with(vec![set_with("s1", vec![emote(":tf:", true, false)])]);
    o.process_message("hello :tf:");
    assert_eq!(o.active_emotes.len(), 1);
    assert_eq!(o.active_emotes[0].layers.0.identifier, "EMOTE_:tf:");
    assert!(o.active_emotes[0].layers.1.is_none());
}

#[test]
fn animated_match_queues_a_fetch_job_instead_of_a_static_request() {
    let mut o = overlay_with(vec![set_with("s1", vec![emote("catJAM", false, true)])]);
    let reqs = o.process_message("catJAM");
    assert!(reqs.is_empty());
    // skip the initial refresh job
    o.worker.take_next();
    match o.worker.take_next() {
        Some(WorkItem::FetchGif { identifier, url }) => {
            assert_eq!(identifier, "EMOTE_catJAM");
            assert_eq!(url, "https://cdn.7tv.app/emote/id_catJAM/2x.gif");
        }
        other => panic!("expected a fetch job, got {other:?}"),
    }
    // a second mention does not schedule the load again
    let reqs = o.process_message("catJAM");
    assert!(reqs.is_empty());
    assert!(o.worker.take_next().is_none());
    assert_eq!(o.active_emotes.len(), 2);
}

#[test]
fn duplicate_catalog_entries_each_match_independently() {
    let mut o = overlay_with(vec![
        set_with("s1", vec![emote("PogChamp", false, false)]),
        set_with("s2", vec![emote("PogChamp", false, false)]),
    ]);
    o.process_message("PogChamp");
    assert_eq!(o.active_emotes.len(), 2);
}

#[test]
fn replacing_the_catalog_is_a_single_total_swap() {
    let mut o = overlay_with(vec![set_with("s1", vec![emote("a", false, false)])]);
    let first = vec![set_with("s2", vec![emote("b", false, false)])];
    let second = vec![set_with("s3", vec![emote("c", false, false)])];
    o.set_emote_sets(first);
    o.set_emote_sets(second);
    assert_eq!(o.emote_sets.len(), 1);
    assert_eq!(o.emote_sets[0].id, "s3");
    o.process_message("b");
    assert!(o.active_emotes.is_empty());
    o.process_message("c");
    assert_eq!(o.active_emotes.len(), 1);
}

#[test]
fn removing_a_set_removes_its_matches_but_not_other_loads() {
    let mut o = overlay_with(vec![
        set_with("s1", vec![emote("gone", false, true)]),
        set_with("s2", vec![emote("stays", false, false)]),
    ]);
    o.process_message("gone");
    o.worker.take_next(); // initial refresh
    let in_flight = o.worker.take_next();
    assert!(matches!(in_flight, Some(WorkItem::FetchGif { .. })));
    o.remove_emote_set(&"s1".to_string());
    assert_eq!(o.emote_sets.len(), 1);
    o.process_message("gone");
    assert_eq!(o.active_emotes.len(), 1); // only the instance from before the removal
    o.process_message("stays");
    assert_eq!(o.active_emotes.len(), 2);
    // the pending cache entry of the removed set's emote is still there
    assert!(o.loaded_emotes.iter().any(|(id, _)| id == "EMOTE_gone"));
}

#[test]
fn settings_changes_drive_removals_and_queued_additions() {
    let mut old = Settings::get();
    old.emote_set_ids.push("s1".to_string());
    old.use_global = true;
    let mut new = Settings::get();
    new.emote_set_ids.push("s2".to_string());
    new.use_global = true;
    let diff = old.changes(&new);
    assert_eq!(
        diff,
        vec![
            Diff::Removed("s1".to_string()),
            Diff::Added("s2".to_string())
        ]
    );
    let mut o = overlay_with(vec![set_with("s1", vec![emote("a", false, false)])]);
    o.worker.take_next();
    o.apply_diffs(diff);
    assert!(o.emote_sets.is_empty());
    match o.worker.take_next() {
        Some(WorkItem::AddSet { id }) => assert_eq!(id, "s2"),
        other => panic!("expected an add-set job, got {other:?}"),
    }
}

#[test]
fn global_flag_toggle_shows_up_in_the_diff() {
    let mut old = Settings::get();
    old.use_global = true;
    let mut new = Settings::get();
    new.use_global = false;
    assert_eq!(old.changes(&new), vec![Diff::Removed("global".to_string())]);
    assert_eq!(new.changes(&old), vec![Diff::Added("global".to_string())]);
}

#[test]
fn download_plan_appends_the_global_page_on_request() {
    let ids = vec!["a".to_string(), "b".to_string()];
    assert_eq!(
        nexus_emotes::seventv::download_plan(&ids, true),
        vec!["a".to_string(), "b".to_string(), "global".to_string()]
    );
    assert_eq!(nexus_emotes::seventv::download_plan(&ids, false), ids);
}

#[test]
fn collect_sets_drops_only_the_failed_pages() {
    let r = nexus_emotes::seventv::collect_sets(vec![
        Some(set_with("a", Vec::new())),
        None,
        Some(set_with("c", Vec::new())),
    ]);
    assert_eq!(r.len(), 2);
    assert_eq!(r[0].id, "a");
    assert_eq!(r[1].id, "c");
}

#[test]
fn find_file_prefers_the_resolution_prefix_and_supported_formats() {
    let e = emote("x", false, false);
    let f = e.find_file().expect("a loadable file");
    assert_eq!(f.name, "2x.png");
    let mut none = emote("y", false, false);
    none.data.host.files.retain(|f| f.format == FileFormat::Avif);
    assert!(none.find_file().is_none());
}

#[test]
fn zero_width_flag_is_bit_zero() {
    assert!(emote("z", true, false).zero_width());
    assert!(!emote("z", false, false).zero_width());
    let mut e = emote("z", false, false);
    e.flags = 3;
    assert!(e.zero_width());
    e.flags = 2;
    assert!(!e.zero_width());
}

// A one-pixel, one-frame GIF whose graphic control extension declares a
// delay of 3 source units.
fn tiny_gif() -> Vec<u8> {
    let mut b = Vec::new();
    b.extend_from_slice(b"GIF89a");
    b.extend_from_slice(&[0x01, 0x00, 0x01, 0x00, 0xf0, 0x00, 0x00]); // screen
    b.extend_from_slice(&[0x00, 0x00, 0x00, 0xff, 0xff, 0xff]); // palette
    b.extend_from_slice(&[0x21, 0xf9, 0x04, 0x00, 0x03, 0x00, 0x00, 0x00]); // gce, delay 3
    b.extend_from_slice(&[0x2c, 0x00, 0x00, 0x00, 0x00, 0x01, 0x00, 0x01, 0x00, 0x00]); // image
    b.extend_from_slice(&[0x02, 0x02, 0x44, 0x01, 0x00]); // lzw data
    b.push(0x3b); // trailer
    b
}

#[test]
fn decoded_frame_delay_is_ten_times_the_source_units() {
    let g = decode_gif(&tiny_gif()).expect("a decodable stream");
    assert_eq!(g.width, 1);
    assert_eq!(g.height, 1);
    assert_eq!(g.frames.len(), 1);
    assert_eq!(g.frames[0].delay_ms, 30);
    assert_eq!(g.frames[0].data.len(), 4); // one RGBA pixel, tightly packed
}

#[test]
fn malformed_bytes_are_a_decode_error() {
    assert_eq!(
        decode_gif(&b"not a gif at all".to_vec()).err(),
        Some(GifError::Malformed)
    );
}

fn two_frame_gif() -> Gif {
    Gif {
        frames: vec![
            GifFrame { id: 11, delay_ms: 30 },
            GifFrame { id: 22, delay_ms: 50 },
        ],
        width: 4,
        height: 4,
    }
}

#[test]
fn animation_advances_after_its_delay_and_wraps() {
    let mut st = GifState::new(two_frame_gif());
    assert_eq!(st.advance(0), 11); // first tick starts the clock
    assert_eq!(st.advance(30), 11); // exactly the delay: not yet exceeded
    assert_eq!(st.advance(1), 22); // now past it
    assert_eq!(st.advance(51), 11); // past the second delay: wraps to the first
    assert_eq!(st.current_frame, 0);
}

#[test]
fn upload_handoff_is_drained_in_arrival_order() {
    let mut o = overlay_with(Vec::new());
    o.push_decoded(
        "EMOTE_a".to_string(),
        RawGif {
            frames: Vec::new(),
            width: 1,
            height: 1,
        },
    );
    o.push_decoded(
        "EMOTE_b".to_string(),
        RawGif {
            frames: Vec::new(),
            width: 2,
            height: 2,
        },
    );
    let batch = o.take_upload_batch();
    assert_eq!(batch.len(), 2);
    assert_eq!(batch[0].0, "EMOTE_a");
    assert_eq!(batch[1].0, "EMOTE_b");
    assert!(o.take_upload_batch().is_empty());
}

#[test]
fn pending_cache_entries_become_ready_exactly_once() {
    let mut o = overlay_with(vec![set_with("s1", vec![emote("catJAM", false, true)])]);
    o.process_message("catJAM");
    assert!(o.loaded_emotes[0].1.is_none());
    o.complete_upload(&"EMOTE_catJAM".to_string(), two_frame_gif());
    let ready = o.loaded_emotes[0].1.as_ref().expect("ready");
    assert_eq!(ready.frames.len(), 2);
    // never transitions again
    o.complete_upload(
        &"EMOTE_catJAM".to_string(),
        Gif {
            frames: Vec::new(),
            width: 9,
            height: 9,
        },
    );
    assert_eq!(o.loaded_emotes[0].1.as_ref().unwrap().frames.len(), 2);
    // unknown identifiers are ignored
    o.complete_upload(&"EMOTE_other".to_string(), two_frame_gif());
    assert_eq!(o.loaded_emotes.len(), 1);
}

#[test]
fn work_queue_is_fifo_and_rejects_after_close() {
    let mut o = overlay_with(Vec::new());
    o.worker.take_next();
    o.worker.spawn(WorkItem::AddSet {
        id: "a".to_string(),
    });
    o.worker.spawn(WorkItem::AddSet {
        id: "b".to_string(),
    });
    o.worker.close();
    o.worker.spawn(WorkItem::AddSet {
        id: "c".to_string(),
    });
    match o.worker.take_next() {
        Some(WorkItem::AddSet { id }) => assert_eq!(id, "a"),
        other => panic!("unexpected job {other:?}"),
    }
    match o.worker.take_next() {
        Some(WorkItem::AddSet { id }) => assert_eq!(id, "b"),
        other => panic!("unexpected job {other:?}"),
    }
    assert!(o.worker.take_next().is_none());
}

#[test]
fn unload_clears_all_shared_state_and_closes_the_queue() {
    let mut o = overlay_with(vec![set_with("s1", vec![emote("a", false, false)])]);
    o.process_message("a");
    o.unload();
    assert!(o.emote_sets.is_empty());
    assert!(o.active_emotes.is_empty());
    assert!(o.loaded_emotes.is_empty());
    o.worker.spawn(WorkItem::AddSet {
        id: "x".to_string(),
    });
    // the queue was closed: the only job left is the initial refresh
    assert!(matches!(
        o.worker.take_next(),
        Some(WorkItem::RefreshSets { .. })
    ));
    assert!(o.worker.take_next().is_none());
}

fn placed_instance(y_milli: i64) -> ActiveEmote {
    ActiveEmote {
        layers: (
            EmoteLayer {
                identifier: "EMOTE_PogChamp".to_string(),
                gif: None,
            },
            None,
        ),
        position: Some((0, y_milli)),
        age_ms: Some(0), // after 1000 ms the sway wave crosses zero
        start_offset: 0,
    }
}

fn pog_texture() -> Vec<HostTexture> {
    vec![HostTexture {
        identifier: "EMOTE_PogChamp".to_string(),
        id: 7,
        width: 28,
        height: 28,
    }]
}

#[test]
fn sprite_is_removed_on_the_exact_tick_it_leaves_the_surface() {
    // age 0 -> after adding 1000 ms the sway wave is at zero, so the
    // descent is exactly 500 thousandths of a pixel per ms: 500_000.
    let host = pog_texture();
    let mut o = overlay_with(Vec::new());
    // one tick before the boundary: y' + height == 0, not yet < 0
    o.active_emotes.push(placed_instance(472_000));
    let draws = o.tick(1000, 800, 600, &host);
    assert_eq!(o.active_emotes.len(), 1);
    assert_eq!(o.active_emotes[0].position.unwrap().1, -28_000);
    assert_eq!(draws.len(), 1);
    assert_eq!(draws[0].y, -28_000);
    assert_eq!((draws[0].width, draws[0].height), (28, 28));
    assert_eq!(draws[0].base_handle, 7);
    // the exact tick the bottom edge crosses the top boundary: removed
    let mut o = overlay_with(Vec::new());
    o.active_emotes.push(placed_instance(471_999));
    let draws = o.tick(1000, 800, 600, &host);
    assert!(o.active_emotes.is_empty());
    assert!(draws.is_empty());
}

#[test]
fn unresolved_sprites_are_kept_and_never_simulated() {
    let mut o = overlay_with(Vec::new());
    o.active_emotes.push(ActiveEmote {
        layers: (
            EmoteLayer {
                identifier: "EMOTE_unknown".to_string(),
                gif: None,
            },
            None,
        ),
        position: None,
        age_ms: None,
        start_offset: 5,
    });
    let draws = o.tick(1000, 800, 600, &Vec::new());
    assert!(draws.is_empty());
    assert_eq!(o.active_emotes.len(), 1);
    assert!(o.active_emotes[0].position.is_none());
}

#[test]
fn first_resolved_tick_places_the_sprite_at_the_bottom_inside_the_band() {
    let host = pog_texture();
    let mut o = overlay_with(Vec::new());
    o.active_emotes.push(ActiveEmote {
        layers: (
            EmoteLayer {
                identifier: "EMOTE_PogChamp".to_string(),
                gif: None,
            },
            None,
        ),
        position: None,
        age_ms: None,
        start_offset: 0,
    });
    let draws = o.tick(0, 800, 600, &host);
    assert_eq!(draws.len(), 1);
    let (x, y) = o.active_emotes[0].position.unwrap();
    assert_eq!(y, 600_000); // placed at the bottom; zero elapsed, no descent
    // the free width is 800_000 - 14_000; one tenth padded each side, then
    // centered on the chosen point
    let fw = 800_000 - 14_000;
    let lo = fw / 10 - 14_000;
    let hi = (fw - fw / 10) - 14_000;
    assert!(x >= lo && x <= hi);
}

#[test]
fn ready_animation_attaches_while_the_sprite_waits() {
    let mut o = overlay_with(vec![set_with("s1", vec![emote("catJAM", false, true)])]);
    o.process_message("catJAM");
    o.complete_upload(&"EMOTE_catJAM".to_string(), two_frame_gif());
    // no host texture: the first tick attaches the decoded animation and
    // skips; the second tick can then place and draw the animated frame
    let draws = o.tick(16, 800, 600, &Vec::new());
    assert!(draws.is_empty());
    let st = o.active_emotes[0].layers.0.gif.as_ref().expect("attached");
    assert_eq!(st.current_frame, 0);
    let draws = o.tick(16, 800, 600, &Vec::new());
    assert_eq!(draws.len(), 1);
    assert_eq!(draws[0].base_handle, 11); // the first frame's handle
    assert_eq!((draws[0].width, draws[0].height), (4, 4));
}

#[test]
fn tokenize_splits_on_whitespace_runs() {
    let toks = nexus_emotes::text::tokenize("  gg\tPogChamp\n:tf:  x ");
    let expected: Vec<String> = ["gg", "PogChamp", ":tf:", "x"]
        .iter()
        .map(|s| s.to_string())
        .collect();
    assert_eq!(toks, expected);
    assert!(nexus_emotes::text::tokenize("   ").is_empty());
    assert!(nexus_emotes::text::tokenize("").is_empty());
}

#[test]
fn messages_are_gated_by_the_configured_source() {
    let parts = SystemTimeParts {
        year: 2024,
        month: 6,
        day: 1,
        hour: 0,
        minute: 0,
        second: 0,
        millisecond: 0,
    };
    let now = Timestamp::from_parts(parts).unwrap();
    let info = ExtrasMessageInfo {
        channel_type: ExtrasChannel::Party,
        character_name: "Eir".to_string(),
        account_name: "acc.1".to_string(),
        text: "PogChamp".to_string(),
        timestamp: parts,
    };
    let mut o = overlay_with(vec![set_with("s1", vec![emote("PogChamp", false, false)])]);
    assert_eq!(o.settings.chat_message_source, ChatMessageSource::UnofficialExtras);
    o.on_extras_message(info.clone(), now);
    assert_eq!(o.active_emotes.len(), 1);
    let mut o = overlay_with(vec![set_with("s1", vec![emote("PogChamp", false, false)])]);
    o.settings.chat_message_source = ChatMessageSource::ChatEvents;
    o.on_extras_message(info, now);
    assert!(o.active_emotes.is_empty());
}

#[test]
fn chat_events_are_gated_and_bad_events_are_dropped_alone() {
    let parts = SystemTimeParts {
        year: 2024,
        month: 6,
        day: 1,
        hour: 0,
        minute: 0,
        second: 0,
        millisecond: 0,
    };
    let now = Timestamp::from_parts(parts).unwrap();
    let event = |msg_type: u32, content: Option<Vec<u8>>| RawChatEvent {
        msg_type,
        timestamp: parts,
        account: GloballyUniqueIdentifier::default(),
        character_name: None,
        account_name: None,
        content,
        guild_index: 0,
        map_id: 0,
        squad_message: None,
        emote_character_name: None,
        emote_action: 0,
        emote_custom_action: None,
    };
    // wrong source selected: nothing happens
    let mut o = overlay_with(vec![set_with("s1", vec![emote("PogChamp", false, false)])]);
    let (reqs, err) = o.on_chat_event(event(4, Some(b"PogChamp".to_vec())), now);
    assert!(reqs.is_empty() && err.is_none());
    assert!(o.active_emotes.is_empty());
    // right source: the map-channel event's text is matched
    let mut o = overlay_with(vec![set_with("s1", vec![emote("PogChamp", false, false)])]);
    o.settings.chat_message_source = ChatMessageSource::ChatEvents;
    let (reqs, err) = o.on_chat_event(event(4, Some(b"PogChamp".to_vec())), now);
    assert!(err.is_none());
    assert_eq!(reqs.len(), 1);
    assert_eq!(o.active_emotes.len(), 1);
    // a bad event reports its error and changes nothing
    let (reqs, err) = o.on_chat_event(event(4, Some(vec![0xff, 0xfe])), now);
    assert!(reqs.is_empty());
    assert_eq!(err, Some(DecodeError::InvalidUtf8));
    assert_eq!(o.active_emotes.len(), 1);
    let (_, err) = o.on_chat_event(event(0, None), now);
    assert_eq!(err, Some(DecodeError::ErrorType));
    let (_, err) = o.on_chat_event(event(77, None), now);
    assert_eq!(err, Some(DecodeError::UnknownType(77)));
    // emote-shape events carry no matchable text
    let (reqs, err) = o.on_chat_event(event(12, None), now);
    assert!(reqs.is_empty() && err.is_none());
    assert_eq!(o.active_emotes.len(), 1);
}

#[test]
fn display_position_keeps_the_simulated_vertical_coordinate() {
    let inst = ActiveEmote {
        layers: (
            EmoteLayer {
                identifier: "EMOTE_x".to_string(),
                gif: None,
            },
            None,
        ),
        position: Some((10_000, 250_000)),
        age_ms: Some(0),
        start_offset: 0,
    };
    let (x, y) = inst.get_position(40);
    // at age zero the wave sits at its lowest point: a full amplitude left
    assert_eq!(y, 250_000);
    assert_eq!(x, 10_000 - 1000 * 40);
}

#[test]
fn gif_state_restarts_from_the_first_frame_when_rebuilt() {
    let mut st = GifState::new(two_frame_gif());
    st.advance(0);
    st.advance(31);
    assert_eq!(st.current_frame, 1);
    let st2 = GifState::new(st.frames);
    assert_eq!(st2.current_frame, 0);
    assert!(st2.shown_ms.is_none());
}

#[test]
fn tokenize_splits_on_unicode_whitespace_too() {
    let toks = nexus_emotes::text::tokenize("a\u{00A0}b\u{2003}c\u{3000}d");
    let expected: Vec<String> = ["a", "b", "c", "d"].iter().map(|s| s.to_string()).collect();
    assert_eq!(toks, expected);
}

#[test]
fn flag_toggle_supersedes_a_literal_global_id_entry() {
    // "global" leaves the id list while the flag turns on: the flag wins,
    // and the diff never both removes and adds the global set
    let mut old = Settings::get();
    old.emote_set_ids.push("global".to_string());
    old.use_global = false;
    let mut new = Settings::get();
    new.use_global = true;
    assert_eq!(old.changes(&new), vec![Diff::Added("global".to_string())]);
    // and the other way around
    let mut old2 = Settings::get();
    old2.use_global = true;
    let mut new2 = Settings::get();
    new2.emote_set_ids.push("global".to_string());
    new2.use_global = false;
    assert_eq!(old2.changes(&new2), vec![Diff::Removed("global".to_string())]);
}

#[test]
fn complete_upload_readies_exactly_the_first_pending_entry() {
    let mut o = overlay_with(Vec::new());
    o.loaded_emotes.push(("EMOTE_dup".to_string(), None));
    o.loaded_emotes.push(("EMOTE_dup".to_string(), None));
    o.complete_upload(&"EMOTE_dup".to_string(), two_frame_gif());
    assert!(o.loaded_emotes[0].1.is_some());
    assert!(o.loaded_emotes[1].1.is_none());
}

#[test]
fn uploaded_handles_pair_with_decoded_delays_in_order() {
    let raw = RawGif {
        frames: vec![
            nexus_emotes::giftex::RawFrame {
                data: vec![0; 4],
                delay_ms: 30,
            },
            nexus_emotes::giftex::RawFrame {
                data: vec![0; 4],
                delay_ms: 70,
            },
        ],
        width: 1,
        height: 1,
    };
    let gif = nexus_emotes::giftex::assemble_gif(&raw, &vec![11, 22]);
    assert_eq!(gif.width, 1);
    assert_eq!(gif.height, 1);
    assert_eq!(gif.frames.len(), 2);
    assert_eq!((gif.frames[0].id, gif.frames[0].delay_ms), (11, 30));
    assert_eq!((gif.frames[1].id, gif.frames[1].delay_ms), (22, 70));
}

#[test]
fn zero_dimension_streams_are_malformed_not_fatal() {
    // a syntactically complete stream whose logical screen is zero-sized
    let mut b = Vec::new();
    b.extend_from_slice(b"GIF89a");
    b.extend_from_slice(&[0x00, 0x00, 0x00, 0x00, 0x00, 0x00, 0x00]);
    b.push(0x3b);
    assert_eq!(decode_gif(&b).err(), Some(GifError::Malformed));
}
