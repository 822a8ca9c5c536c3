use ab_tui::blocker::Blocker;
use ab_tui::live::Liveness;
use ab_tui::theme::{
    attention_style, blocker_style, detect, liveness_style, panel_border_style, panel_border_type,
    panel_title_style, scrollbar_style, selected_row_style, stale_style, status_style,
    warning_style, BorderType, Palette,
};

#[test]
fn colorterm_upgrades_only_on_a_declared_24bit_signal() {
    assert_eq!(detect(Some("truecolor")), Palette::truecolor());
    assert_eq!(detect(Some("24bit")), Palette::truecolor());

    for s in [None, Some(""), Some("256color"), Some("yes"), Some("TRUECOLOR")] {
        assert_eq!(
            detect(s),
            Palette::ansi16());
    }

    assert_eq!(detect(Some(" truecolor ")), Palette::truecolor());
}

#[test]
fn palette_invariants_hold_for_both_palettes() {
    for (name, p) in [("ANSI16", Palette::ansi16()), ("TRUECOLOR", Palette::truecolor())] {
        let fgs = [
            p.running,
            p.completed,
            p.failed,
            p.pending,
            p.live,
            p.dead,
            p.blocked,
            p.dim,
            p.warning,
        ];
        for c in fgs {
            assert_ne!(c, p.selected_bg);
        }

        let must_differ = [
            ("running", p.running),
            ("completed", p.completed),
            ("failed", p.failed),
            ("pending", p.pending),
            ("dim", p.dim),
        ];
        for (i, (an, a)) in must_differ.iter().enumerate() {
            for (bn, b) in must_differ.iter().skip(i + 1) {
                assert_ne!(a, b);
            }
        }

        assert_eq!(p.failed, p.dead);
        assert_eq!(p.completed, p.live);
    }
}

#[test]
fn without_init_every_style_comes_from_the_ansi16_palette() {
    let p = detect(None);
    assert_eq!(status_style(&p, "running").fg, Some(p.running));
    assert_eq!(status_style(&p, "failed").fg, Some(p.failed));
    assert_eq!(status_style(&p, "cancelled").fg, Some(p.dim));
    assert_eq!(liveness_style(&p, Liveness::Unknown).fg, Some(p.dim));
    assert_eq!(
        blocker_style(&p, Blocker::Prompt).unwrap().fg,
        Some(p.blocked));
    assert_eq!(selected_row_style(&p).bg, Some(p.selected_bg));
    assert_eq!(scrollbar_style(&p).fg, Some(p.dim));
    assert_eq!(warning_style(&p).fg, Some(p.warning));

    assert_eq!(status_style(&p, "blocked").fg, None);
}

#[test]
fn modifiers_and_border_types_are_not_part_of_the_palette() {
    let p = Palette::ansi16();
    assert!(
        blocker_style(&p, Blocker::Prompt)
            .unwrap()
            .bold);
    assert!(attention_style().bold);
    assert_eq!(attention_style().fg, None);
    assert_eq!(panel_border_type(true), BorderType::Thick);
    assert_eq!(panel_border_type(false), BorderType::Plain);
}

#[test]
fn panels_without_the_focus_step_back_but_keep_their_title() {
    for p in [Palette::ansi16(), Palette::truecolor()] {
        assert_eq!(panel_border_style(&p, false).fg, Some(p.dim));
        assert!(!panel_border_style(&p, false).bold);
        assert!(panel_border_style(&p, true).bold);
        assert!(panel_title_style(true).bold);
        assert!(panel_title_style(true).reset && panel_title_style(false).reset);
        assert_eq!(panel_title_style(false).fg, None);
        assert_eq!(stale_style(&p), warning_style(&p));
    }
}
