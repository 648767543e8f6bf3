use obutils::fcitx::{
    build_catalog_a, build_catalog_b, decode_dialect_a, decode_dialect_b, resolve, Dialect,
    DialectAProbe, DialectBProbe, FcitxError, InputMethod, ResolverState,
};
use obutils::indicator::{highlight, leds_state, render, step};
use obutils::keyboard_leds::{get_input_id, get_leds_state, led_brightness_path, LedState};

fn s(x: &str) -> String {
    x.to_string()
}

fn catalog_of(entries: &[(&str, &str)]) -> Vec<InputMethod> {
    entries
        .iter()
        .map(|(name, display)| InputMethod {
            display_name: s(display),
            name: s(name),
            lang: s(""),
            loaded: true,
        })
        .collect()
}

#[test]
fn decode_dialect_a_keeps_field_order() {
    let im = decode_dialect_a(&(s("English (US)"), s("keyboard-us"), s("en"), true));
    assert_eq!(im.display_name, "English (US)");
    assert_eq!(im.name, "keyboard-us");
    assert_eq!(im.lang, "en");
    assert!(im.loaded);
}

#[test]
fn decode_dialect_b_swaps_name_and_display() {
    let im = decode_dialect_b(&(
        s("pinyin"),
        s("Pinyin"),
        s("icon"),
        s("label"),
        s("extra"),
        s("zh_CN"),
        false,
    ));
    assert_eq!(im.display_name, "Pinyin");
    assert_eq!(im.name, "pinyin");
    assert_eq!(im.lang, "zh_CN");
    assert!(!im.loaded);
}

#[test]
fn catalog_a_strips_prefix_once() {
    let raw = vec![
        (s("Keyboard - English (US)"), s("keyboard-us"), s("en"), true),
        (s("English (US)"), s("plain-us"), s("en"), true),
    ];
    let c = build_catalog_a(&raw);
    assert_eq!(c.len(), 2);
    assert_eq!(c[0].display_name, "English (US)");
    assert_eq!(c[1].display_name, "English (US)");
}

#[test]
fn catalog_a_excludes_unloaded_entries() {
    let raw = vec![
        (s("Pinyin"), s("pinyin"), s("zh"), true),
        (s("Mozc"), s("mozc"), s("ja"), false),
    ];
    let c = build_catalog_a(&raw);
    assert_eq!(c.len(), 1);
    assert_eq!(c[0].name, "pinyin");
}

#[test]
fn catalog_a_drops_duplicate_ids() {
    let raw = vec![
        (s("First"), s("dup"), s(""), true),
        (s("Second"), s("dup"), s(""), true),
    ];
    let c = build_catalog_a(&raw);
    assert_eq!(c.len(), 1);
    assert_eq!(c[0].display_name, "First");
}

#[test]
fn catalog_b_drops_duplicate_ids() {
    let raw = vec![
        (s("dup"), s("First"), s(""), s(""), s(""), s(""), true),
        (s("dup"), s("Second"), s(""), s(""), s(""), s(""), true),
    ];
    let members = vec![s("dup")];
    let c = build_catalog_b(&raw, &members);
    assert_eq!(c.len(), 1);
    assert_eq!(c[0].display_name, "First");
}

#[test]
fn catalog_b_excludes_entries_outside_group() {
    let raw = vec![
        (s("pinyin"), s("Pinyin"), s(""), s(""), s(""), s("zh"), true),
        (s("mozc"), s("Mozc"), s(""), s(""), s(""), s("ja"), true),
    ];
    let members = vec![s("pinyin")];
    let c = build_catalog_b(&raw, &members);
    assert_eq!(c.len(), 1);
    assert_eq!(c[0].name, "pinyin");
    assert_eq!(c[0].display_name, "Pinyin");
}

#[test]
fn catalog_b_strips_prefix() {
    let raw = vec![(
        s("keyboard-us"),
        s("Keyboard - English (US)"),
        s(""),
        s(""),
        s(""),
        s("en"),
        true,
    )];
    let members = vec![s("keyboard-us")];
    let c = build_catalog_b(&raw, &members);
    assert_eq!(c.len(), 1);
    assert_eq!(c[0].display_name, "English (US)");
}

#[test]
fn resolve_returns_stripped_display_name() {
    let raw = vec![(s("Keyboard - English (US)"), s("keyboard-us"), s("en"), true)];
    let c = build_catalog_a(&raw);
    assert_eq!(resolve(&c, "keyboard-us"), Ok(s("English (US)")));
}

#[test]
fn resolve_empty_id_is_empty_name() {
    let c = catalog_of(&[("pinyin", "Pinyin")]);
    assert_eq!(resolve(&c, ""), Ok(s("")));
}

#[test]
fn resolve_unknown_id_is_an_error() {
    let c = catalog_of(&[("pinyin", "Pinyin")]);
    assert_eq!(resolve(&c, "mozc"), Err(FcitxError::UnknownInputMethod));
}

#[test]
fn render_empty_name_hides_segment_despite_leds() {
    let lit = LedState { caps_lock: true, num_lock: true };
    assert_eq!(render("", &lit), "");
}

#[test]
fn render_orders_num_before_caps() {
    let both = LedState { caps_lock: true, num_lock: true };
    assert_eq!(
        render("X", &both),
        "X <span foreground='#ff9944'>[Num]</span><span foreground='#ff9944'>[Caps]</span>"
    );
    let none = LedState { caps_lock: false, num_lock: false };
    assert_eq!(render("X", &none), "X ");
    assert_eq!(leds_state(&none), "");
}

#[test]
fn render_end_to_end_scenario() {
    let c = catalog_of(&[("pinyin", "Pinyin")]);
    let name = resolve(&c, "pinyin").unwrap();
    let state = LedState { caps_lock: false, num_lock: true };
    assert_eq!(
        render(&name, &state),
        "Pinyin <span foreground='#ff9944'>[Num]</span>"
    );
}

#[test]
fn highlight_wraps_in_span() {
    assert_eq!(highlight("[Num]"), "<span foreground='#ff9944'>[Num]</span>");
}

#[test]
fn step_prints_once_for_identical_renders() {
    let (last, out) = step(s(""), s("A"));
    assert_eq!(out, Some(s("A")));
    assert_eq!(last, "A");
    let (last, out) = step(last, s("A"));
    assert_eq!(out, None);
    assert_eq!(last, "A");
}

#[test]
fn step_empty_render_keeps_last_emitted() {
    let (last, out) = step(s("A"), s(""));
    assert_eq!(out, None);
    assert_eq!(last, "A");
    let (last, out) = step(last, s("B"));
    assert_eq!(out, Some(s("B")));
    assert_eq!(last, "B");
    let (last, out) = step(last, s(""));
    assert_eq!(out, None);
    let (_, out) = step(last, s("B"));
    assert_eq!(out, None);
}

#[test]
fn probe_settles_on_dialect_a() {
    let raw = vec![(s("Pinyin"), s("pinyin"), s("zh"), true)];
    let state = ResolverState::new().begin_probe().on_dialect_a(DialectAProbe::Listed(raw));
    match state {
        ResolverState::Ready(d, c) => {
            assert_eq!(d, Dialect::A);
            assert_eq!(c.len(), 1);
            assert_eq!(c[0].name, "pinyin");
        }
        _ => panic!("expected a ready resolver"),
    }
}

#[test]
fn probe_falls_back_to_dialect_b() {
    let raw = vec![(s("pinyin"), s("Pinyin"), s(""), s(""), s(""), s("zh"), true)];
    let members = vec![s("pinyin")];
    let state = ResolverState::new()
        .begin_probe()
        .on_dialect_a(DialectAProbe::TransportFailure)
        .on_dialect_b(DialectBProbe::Listed(raw, members));
    match state {
        ResolverState::Ready(d, c) => {
            assert_eq!(d, Dialect::B);
            assert_eq!(c.len(), 1);
            assert_eq!(c[0].display_name, "Pinyin");
        }
        _ => panic!("expected a ready resolver"),
    }
}

#[test]
fn probe_both_transports_failing_is_no_backend() {
    let state = ResolverState::new()
        .begin_probe()
        .on_dialect_a(DialectAProbe::TransportFailure)
        .on_dialect_b(DialectBProbe::TransportFailure);
    match state {
        ResolverState::FatalError(e) => {
            assert_eq!(e, FcitxError::NoBackendFound);
            assert_eq!(e.message(), "no IME backend found");
        }
        _ => panic!("expected the no-backend error"),
    }
}

#[test]
fn probe_malformed_reply_is_fatal() {
    let state = ResolverState::new().begin_probe().on_dialect_a(DialectAProbe::MalformedReply);
    match state {
        ResolverState::FatalError(e) => assert_eq!(e, FcitxError::FailToDeserialize),
        _ => panic!("expected the deserialize error"),
    }
}

#[test]
fn input_id_of_first_capslock_entry() {
    let names = vec![s("input5::scrolllock"), s("input7::capslock"), s("input9::capslock")];
    assert_eq!(get_input_id(&names), Some(7));
}

#[test]
fn input_id_missing_when_nothing_matches() {
    let names = vec![s("mmc0::"), s("phy0-led")];
    assert_eq!(get_input_id(&names), None);
}

#[test]
fn input_id_first_match_decides_even_when_unparsable() {
    let names = vec![s("inputx::capslock"), s("input3::capslock")];
    assert_eq!(get_input_id(&names), None);
}

#[test]
fn leds_state_from_file_contents() {
    let state = get_leds_state("1\n", "0\n");
    assert!(state.caps_lock);
    assert!(!state.num_lock);
}

#[test]
fn led_path_is_assembled() {
    assert_eq!(
        led_brightness_path(11, "numlock"),
        "/sys/class/leds/input11::numlock/brightness"
    );
}
