use wlr_which_key::chord::{modifier_mask, ESCAPE_KEYSYM, MOD_SHIFT};
use wlr_which_key::config::{ConfigAnchor, Entry, Item, Menu};
use wlr_which_key::navigator::{KeyOutcome, Navigator};
use wlr_which_key::scale::{contains_id, max_visible, resolve_scale, without_id, Output};
use wlr_which_key::surface::{plan_buffer, BufferPlan, Overlay, Phase};

const KEY_A: u32 = 0x61;
const KEY_B: u32 = 0x62;
const KEY_C: u32 = 0x63;

fn cmd_item(key: u32, mods: u32, cmd: &str) -> Item {
    Item {
        desc: cmd.to_string(),
        key,
        display_mod: String::new(),
        mods,
        var: Entry::Cmd { cmd: cmd.to_string() },
    }
}

fn rec_item(key: u32, mods: u32, rec: Menu) -> Item {
    Item {
        desc: rec.title.clone(),
        key,
        display_mod: String::new(),
        mods,
        var: Entry::Rec { rec },
    }
}

fn menu(title: &str, items: Vec<Item>) -> Menu {
    Menu { title: title.to_string(), newcols: Vec::new(), items }
}

fn firefox_menu() -> Menu {
    menu("root", vec![cmd_item(KEY_A, 0, "firefox")])
}

fn nested_menu() -> Menu {
    let child = menu("child", vec![cmd_item(KEY_C, 0, "ls")]);
    menu("root", vec![rec_item(KEY_B, 0, child)])
}

fn configured(root: Menu) -> Overlay {
    let mut o = Overlay::new(root, 1920, 1080, 4);
    let r = o.configure(7);
    assert_eq!(r.ack, Some(7));
    o
}

#[test]
fn pressing_bound_key_spawns_and_exits() {
    let mut o = configured(firefox_menu());
    let r = o.key(true, KEY_A, 0);
    assert_eq!(r.spawn.as_deref(), Some("firefox"));
    assert!(r.exit);
    assert_eq!(o.phase, Phase::Closing);
}

#[test]
fn shifted_key_matches_nothing() {
    let mut o = configured(firefox_menu());
    let r = o.key(true, KEY_A, MOD_SHIFT);
    assert!(r.spawn.is_none());
    assert!(!r.exit);
    assert!(r.draw.is_none());
    assert_eq!(o.phase, Phase::Configured);
    let r = o.key(false, KEY_A, MOD_SHIFT);
    assert!(!r.exit);
}

#[test]
fn descend_then_execute() {
    let mut o = configured(nested_menu());
    let r = o.key(true, KEY_B, 0);
    assert!(!r.exit);
    assert!(r.spawn.is_none());
    assert!(r.draw.is_some());
    assert_eq!(o.nav.level_count(), 2);
    assert_eq!(o.nav.current().title, "child");
    let r = o.key(true, KEY_C, 0);
    assert_eq!(r.spawn.as_deref(), Some("ls"));
    assert!(r.exit);
}

#[test]
fn descend_then_escape_returns_to_root() {
    let mut o = configured(nested_menu());
    o.key(true, KEY_B, 0);
    let r = o.key(true, ESCAPE_KEYSYM, 0);
    assert!(!r.exit);
    assert!(r.spawn.is_none());
    assert!(r.draw.is_some());
    assert_eq!(o.nav.level_count(), 1);
    assert_eq!(o.nav.current().title, "root");
    let r = o.key(false, ESCAPE_KEYSYM, 0);
    assert!(!r.exit);
    assert_eq!(o.phase, Phase::Configured);
}

#[test]
fn escape_at_root_exits() {
    let mut o = configured(firefox_menu());
    let r = o.key(true, ESCAPE_KEYSYM, 0);
    assert!(r.exit);
    assert!(r.spawn.is_none());
    assert_eq!(o.phase, Phase::Closing);
    assert_eq!(o.nav.level_count(), 1);
}

#[test]
fn escape_release_alone_exits() {
    let mut o = configured(nested_menu());
    let r = o.key(false, ESCAPE_KEYSYM, 0);
    assert!(r.exit);
    assert!(r.spawn.is_none());
}

#[test]
fn keys_after_closing_are_ignored() {
    let mut o = configured(firefox_menu());
    o.key(true, ESCAPE_KEYSYM, 0);
    let r = o.key(true, KEY_A, 0);
    assert!(r.spawn.is_none());
    assert!(!r.exit);
}

#[test]
fn descending_into_empty_level_is_legal() {
    let root = menu("root", vec![rec_item(KEY_B, 0, menu("empty", Vec::new()))]);
    let mut nav = Navigator::new(root);
    assert!(matches!(nav.key_event(true, KEY_B, 0), KeyOutcome::Redraw));
    assert_eq!(nav.current().items.len(), 0);
    assert!(matches!(nav.key_event(true, KEY_A, 0), KeyOutcome::Ignored));
}

#[test]
fn matching_is_exact_in_modifiers() {
    let m = menu(
        "root",
        vec![cmd_item(KEY_A, 0, "plain"), cmd_item(KEY_A, MOD_SHIFT, "shifted")],
    );
    assert_eq!(m.find_binding(KEY_A, 0), Some(0));
    assert_eq!(m.find_binding(KEY_A, MOD_SHIFT), Some(1));
    assert_eq!(m.find_binding(KEY_A, MOD_SHIFT | 4), None);
    assert_eq!(m.find_binding(KEY_B, 0), None);
    assert!(m.has_unique_bindings());
}

#[test]
fn duplicate_bindings_are_detected() {
    let m = menu("root", vec![cmd_item(KEY_A, 0, "one"), cmd_item(KEY_A, 0, "two")]);
    assert!(!m.has_unique_bindings());
    assert_eq!(m.find_binding(KEY_A, 0), Some(0));
}

#[test]
fn modifier_mask_bits() {
    assert_eq!(modifier_mask(false, false, false, false), 0);
    assert_eq!(modifier_mask(true, false, false, false), 1);
    assert_eq!(modifier_mask(true, true, false, true), 69);
    assert_eq!(modifier_mask(true, true, true, true), 77);
}

#[test]
fn anchor_edges() {
    assert_eq!(ConfigAnchor::Center.anchor_bits(), 0);
    assert_eq!(ConfigAnchor::Top.anchor_bits(), 1);
    assert_eq!(ConfigAnchor::TopLeft.anchor_bits(), 5);
    assert_eq!(ConfigAnchor::TopRight.anchor_bits(), 9);
    assert_eq!(ConfigAnchor::BottomLeft.anchor_bits(), 6);
    assert_eq!(ConfigAnchor::BottomRight.anchor_bits(), 10);
    assert_eq!(ConfigAnchor::default(), ConfigAnchor::Center);
}

#[test]
fn buffer_is_scaled_in_both_dimensions() {
    assert_eq!(
        plan_buffer(1920, 1080, 2),
        Some(BufferPlan { width: 3840, height: 2160, stride: 15360 })
    );
    assert_eq!(
        plan_buffer(1920, 1080, 1),
        Some(BufferPlan { width: 1920, height: 1080, stride: 7680 })
    );
    assert_eq!(plan_buffer(1920, 1080, 1_000_000), None);
    assert_eq!(plan_buffer(0, 0, 3), Some(BufferPlan { width: 0, height: 0, stride: 0 }));
}

#[test]
fn configure_acks_and_draws() {
    let mut o = Overlay::new(firefox_menu(), 1920, 1080, 4);
    assert_eq!(o.redraw(), None);
    let r = o.configure(42);
    assert_eq!(r.ack, Some(42));
    assert_eq!(r.draw, Some(BufferPlan { width: 1920, height: 1080, stride: 7680 }));
    assert!(!r.exit);
    assert_eq!(o.phase, Phase::Configured);
}

#[test]
fn closed_ends_the_run() {
    let mut o = configured(firefox_menu());
    let r = o.closed();
    assert!(r.exit);
    assert_eq!(o.phase, Phase::Closing);
    let r = o.configure(3);
    assert_eq!(r.ack, None);
    assert_eq!(r.draw, None);
    assert_eq!(o.phase, Phase::Closing);
}

#[test]
fn scale_follows_visible_outputs() {
    let mut o = configured(firefox_menu());
    o.add_output(10, 1);
    o.add_output(11, 2);
    assert_eq!(o.output_scale(11, 2).draw, None);
    assert_eq!(o.scale, 1);
    let r = o.enter(11);
    assert_eq!(o.scale, 2);
    assert_eq!(r.draw, Some(BufferPlan { width: 3840, height: 2160, stride: 15360 }));
    let r = o.enter(10);
    assert_eq!(r.draw, None);
    let r = o.leave(11);
    assert_eq!(o.scale, 1);
    assert!(r.draw.is_some());
}

#[test]
fn removing_unseen_output_keeps_scale() {
    let mut o = configured(firefox_menu());
    o.add_output(10, 1);
    o.add_output(11, 2);
    o.output_scale(10, 3);
    o.output_scale(11, 2);
    o.enter(10);
    assert_eq!(o.scale, 3);
    let r = o.remove_global(2);
    assert_eq!(o.scale, 3);
    assert_eq!(r.draw, None);
    assert_eq!(r.release, Some(11));
    assert!(!r.exit);
    assert_eq!(o.outputs.len(), 1);
}

#[test]
fn removing_visible_output_rescales() {
    let mut o = configured(firefox_menu());
    o.add_output(10, 1);
    o.output_scale(10, 2);
    o.enter(10);
    assert_eq!(o.scale, 2);
    let r = o.remove_global(1);
    assert_eq!(r.release, Some(10));
    assert_eq!(o.scale, 1);
    assert!(r.draw.is_some());
    assert!(o.visible.is_empty());
    let r = o.remove_global(1);
    assert_eq!(r.release, None);
}

#[test]
fn stray_output_events_are_ignored() {
    let mut o = configured(firefox_menu());
    let r = o.output_scale(99, 2);
    assert_eq!(r.draw, None);
    o.add_output(10, 1);
    let r = o.output_scale(10, -1);
    assert_eq!(r.draw, None);
    assert_eq!(o.outputs[0].scale, 1);
    let r = o.add_output(10, 5);
    assert_eq!(r.draw, None);
    assert_eq!(o.outputs.len(), 1);
}

#[test]
fn surface_preferred_scale_wins_from_version_six() {
    let mut o = Overlay::new(firefox_menu(), 100, 50, 6);
    o.configure(1);
    o.add_output(10, 1);
    o.output_scale(10, 3);
    o.enter(10);
    assert_eq!(o.scale, 1);
    let r = o.preferred_scale(2);
    assert_eq!(o.scale, 2);
    assert_eq!(r.draw, Some(BufferPlan { width: 200, height: 100, stride: 800 }));
    let r = o.preferred_scale(0);
    assert_eq!(r.draw, None);
    assert_eq!(o.scale, 2);
}

#[test]
fn rescale_twice_is_stable() {
    let mut o = configured(firefox_menu());
    o.add_output(10, 1);
    o.output_scale(10, 2);
    o.visible.push(10);
    assert!(o.rescale());
    assert_eq!(o.scale, 2);
    assert!(!o.rescale());
    assert_eq!(o.scale, 2);
}

#[test]
fn scale_helpers() {
    let outs = vec![
        Output { id: 1, reg_name: 1, scale: 2 },
        Output { id: 2, reg_name: 2, scale: 3 },
    ];
    assert_eq!(max_visible(&outs, &vec![]), 0);
    assert_eq!(max_visible(&outs, &vec![1]), 2);
    assert_eq!(max_visible(&outs, &vec![1, 2]), 3);
    assert_eq!(resolve_scale(4, 5, &outs, &vec![]), 1);
    assert_eq!(resolve_scale(6, 5, &outs, &vec![1, 2]), 5);
    assert!(contains_id(&vec![3, 4], 4));
    assert!(!contains_id(&vec![3, 4], 5));
    assert_eq!(without_id(&vec![3, 4, 3, 5], 3), vec![4, 5]);
}
