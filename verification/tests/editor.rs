use themalingadingdong::cli::VariantArg;
use themalingadingdong::curves::CurveType;
use themalingadingdong::tui::activities::code_preview::{self, next_language, prev_language};
use themalingadingdong::tui::activities::main::{FocusManager, Id};
use themalingadingdong::tui::activity::{next_activity, ActivityType, ExitReason};
use themalingadingdong::tui::app;
use themalingadingdong::tui::components::params::accent_controls::{AccentControlsType, AccentFocus};
use themalingadingdong::tui::components::params::curve_controls::{CurveFocus, CurveTypes};
use themalingadingdong::tui::components::params::hellwig_picker::HellwigFocus;
use themalingadingdong::tui::components::params::hue_grid::{EditKey, EditOutcome, HueGridInput};
use themalingadingdong::tui::components::params::oklch_picker::OklchFocus;
use themalingadingdong::tui::components::params::selector::{
    curve_type_from_index, cycle_next, cycle_prev, initial_selection,
};
use themalingadingdong::tui::components::params::weight_controls::WeightFocus;
use themalingadingdong::tui::components::params::HellwigPickerType;
use themalingadingdong::tui::components::help::format_footer;
use themalingadingdong::tui::components::validation;
use themalingadingdong::tui::snippets::sample::{process, Config, MAX_ITEMS, VERSION};
use themalingadingdong::tui::state::{
    TextFields, cycle_variant, scroll_validation_down, scroll_validation_up, validation_content_lines, Focus,
};

#[test]
fn focus_manager_tab_order() {
    let mut fm = FocusManager::new();
    assert_eq!(fm.current_focus(), Id::BackgroundPicker);
    let order = [
        Id::ForegroundPicker,
        Id::CurveControls,
        Id::WeightControls,
        Id::AccentControls,
        Id::ExtendedAccentControls,
        Id::HueOverrides,
        Id::Validation,
        Id::BackgroundPicker,
    ];
    for id in order {
        assert_eq!(fm.focus_next(), id);
    }
    assert_eq!(fm.focus_prev(), Id::Validation);
    assert_eq!(fm.focus_next(), Id::BackgroundPicker);
}

#[test]
fn focus_manager_default_is_first() {
    assert_eq!(FocusManager::default().current_focus(), Id::BackgroundPicker);
    let mut fm = app::FocusManager::new();
    let first = fm.current_focus();
    fm.focus_next();
    assert_eq!(fm.focus_prev(), first);
}

#[test]
fn activity_transitions() {
    assert_eq!(next_activity(ExitReason::Quit), None);
    assert_eq!(next_activity(ExitReason::SwitchToMain), Some(ActivityType::Main));
    assert_eq!(next_activity(ExitReason::SwitchToCodePreview), Some(ActivityType::CodePreview));
}

#[test]
fn language_cycle_wraps() {
    assert_eq!(next_language(0, 3), 1);
    assert_eq!(next_language(2, 3), 0);
    assert_eq!(prev_language(0, 3), 2);
    assert_eq!(prev_language(1, 3), 0);
    assert_eq!(prev_language(next_language(1, 5), 5), 1);
    // positions past the end are taken modulo the count
    assert_eq!(next_language(7, 3), 2);
    assert_eq!(prev_language(7, 3), 0);
}

#[test]
fn code_view_scrolling() {
    assert_eq!(code_preview::scroll_up(0), 0);
    assert_eq!(code_preview::scroll_up(4), 3);
    assert_eq!(code_preview::scroll_down(0, 50, 20), 1);
    assert_eq!(code_preview::scroll_down(30, 50, 20), 30);
    assert_eq!(code_preview::scroll_down(0, 10, 20), 0);
}

#[test]
fn validation_panel_scrolling() {
    assert_eq!(validation::scroll_up(0), 0);
    assert_eq!(validation::scroll_up(7), 6);
    assert_eq!(validation::scroll_down(3, 10), 4);
    assert_eq!(validation::scroll_down(10, 10), 10);
    assert_eq!(validation::max_scroll(0), 0);
    assert_eq!(validation::max_scroll(25), 24);
}

#[test]
fn sub_focus_cycles() {
    assert_eq!(AccentFocus::DeltaM.next(), AccentFocus::MinContrast);
    assert_eq!(AccentFocus::MinContrast.prev(), AccentFocus::DeltaM);
    assert_eq!(AccentFocus::default(), AccentFocus::MinContrast);
    assert_eq!(HellwigFocus::Hue.next(), HellwigFocus::Lightness);
    assert_eq!(HellwigFocus::Lightness.prev(), HellwigFocus::Hue);
    assert_eq!(OklchFocus::Chroma.next(), OklchFocus::Hue);
    assert_eq!(OklchFocus::Lightness.prev(), OklchFocus::Hue);
    assert_eq!(WeightFocus::ContrastWeight.next(), WeightFocus::JWeight);
    assert_eq!(WeightFocus::JWeight.next(), WeightFocus::ContrastWeight);
    assert_eq!(WeightFocus::JWeight.prev(), WeightFocus::ContrastWeight);
}

#[test]
fn labels() {
    assert_eq!(AccentControlsType::Base.label_prefix(), "Accent");
    assert_eq!(AccentControlsType::Extended.label_prefix(), "Extended");
    assert_eq!(HellwigPickerType::Background.label(), "Background");
    assert_eq!(HellwigPickerType::Foreground.label(), "Foreground");
}

#[test]
fn curve_controls_skip_hidden_strength() {
    let linear = CurveTypes {
        j_type: CurveType::Linear,
        m_type: CurveType::Linear,
        h_type: CurveType::Linear,
    };
    assert_eq!(linear.focus_next(CurveFocus::JType), CurveFocus::MType);
    assert_eq!(linear.focus_next(CurveFocus::HType), CurveFocus::JType);
    assert_eq!(linear.focus_prev(CurveFocus::JType), CurveFocus::HType);
    assert_eq!(linear.focus_prev(CurveFocus::MType), CurveFocus::JType);
    assert!(!linear.is_strength_visible(CurveFocus::MStrength));
    assert!(linear.is_strength_visible(CurveFocus::MType));

    let sigmoid_m = CurveTypes { m_type: CurveType::Sigmoid, ..linear };
    assert_eq!(sigmoid_m.focus_next(CurveFocus::MType), CurveFocus::MStrength);
    assert_eq!(sigmoid_m.focus_prev(CurveFocus::HType), CurveFocus::MStrength);
    assert!(CurveFocus::MStrength.is_strength());
    assert!(!CurveFocus::MType.is_strength());
}

#[test]
fn curve_controls_cycle_type() {
    let mut t = CurveTypes {
        j_type: CurveType::Linear,
        m_type: CurveType::BSpline,
        h_type: CurveType::Sigmoid,
    };
    t.cycle_type(CurveFocus::JType, true);
    assert_eq!(t.j_type, CurveType::Smoothstep);
    t.cycle_type(CurveFocus::MType, true);
    assert_eq!(t.m_type, CurveType::Linear);
    t.cycle_type(CurveFocus::HType, false);
    assert_eq!(t.h_type, CurveType::SmoothEnd);
    let before = t;
    t.cycle_type(CurveFocus::JStrength, true);
    assert_eq!(t, before);
}

#[test]
fn selector_positions() {
    assert_eq!(initial_selection(2, 5), 2);
    assert_eq!(initial_selection(9, 5), 4);
    assert_eq!(initial_selection(3, 0), 0);
    assert_eq!(cycle_next(4, 5), 0);
    assert_eq!(cycle_next(1, 5), 2);
    assert_eq!(cycle_prev(0, 5), 4);
    assert_eq!(cycle_next(0, 0), 0);
    assert_eq!(cycle_prev(0, 0), 0);
    assert_eq!(cycle_next(7, 5), 3);
    assert_eq!(cycle_prev(7, 5), 1);
    assert_eq!(curve_type_from_index(0), CurveType::Linear);
    assert_eq!(curve_type_from_index(5), CurveType::Sigmoid);
    assert_eq!(curve_type_from_index(6), CurveType::BSpline);
    assert_eq!(curve_type_from_index(99), CurveType::BSpline);
}

#[test]
fn parameter_focus_cycle() {
    assert_eq!(Focus::Background.next(), Focus::Foreground);
    assert_eq!(Focus::Author.next(), Focus::Background);
    assert_eq!(Focus::Background.prev(), Focus::Author);
    assert_eq!(Focus::Hue0F.next(), Focus::Name);
    let mut f = Focus::Variant;
    for _ in 0..17 {
        f = f.next();
    }
    assert_eq!(f, Focus::Variant);
    assert!(Focus::Name.is_text_field());
    assert!(Focus::Author.is_text_field());
    assert!(!Focus::Variant.is_text_field());
    assert!(Focus::Variant.is_variant_field());
    assert_eq!(Focus::Hue08.hue_slot(), Some(0));
    assert_eq!(Focus::Hue0F.hue_slot(), Some(7));
    assert_eq!(Focus::Name.hue_slot(), None);
}

#[test]
fn variant_cycle() {
    assert_eq!(cycle_variant(VariantArg::Auto, true), VariantArg::Dark);
    assert_eq!(cycle_variant(VariantArg::Dark, true), VariantArg::Light);
    assert_eq!(cycle_variant(VariantArg::Light, true), VariantArg::Auto);
    assert_eq!(cycle_variant(VariantArg::Auto, false), VariantArg::Light);
    assert_eq!(cycle_variant(VariantArg::Both, true), VariantArg::Auto);
    assert_eq!(cycle_variant(VariantArg::Both, false), VariantArg::Auto);
}

#[test]
fn validation_pane_scrolling_and_lines() {
    assert_eq!(scroll_validation_up(5, 3), 2);
    assert_eq!(scroll_validation_up(2, 3), 0);
    assert_eq!(scroll_validation_down(5, 3, 100), 8);
    assert_eq!(scroll_validation_down(5, 3, 6), 6);
    assert_eq!(scroll_validation_down(u16::MAX - 1, 5, u16::MAX), u16::MAX);
    assert_eq!(validation_content_lines(false, 4, 4), 1);
    assert_eq!(validation_content_lines(true, 0, 0), 3);
    assert_eq!(validation_content_lines(true, 5, 0), 7);
    assert_eq!(validation_content_lines(true, 0, 2), 7);
    assert_eq!(validation_content_lines(true, 2, 10), 9);
}

#[test]
fn hue_grid_moves_between_rows() {
    let mut g = HueGridInput::new();
    assert_eq!(g.selected(), 0);
    g.move_up();
    assert_eq!(g.selected(), 0);
    g.move_down();
    assert_eq!(g.selected(), 4);
    g.move_down();
    assert_eq!(g.selected(), 4);
    g.move_up();
    assert_eq!(g.selected(), 0);
}

#[test]
fn hue_grid_typing() {
    let mut g = HueGridInput::default();
    assert!(!g.is_editing());
    assert!(!g.start_with_digit('x'));
    assert!(!g.is_editing());
    assert!(g.start_with_digit('1'));
    assert!(g.is_editing());
    assert_eq!(g.edit_buffer(), "1");
    for c in ['2', '.', '5', '.', 'a', '-'] {
        g.type_char(c);
    }
    assert_eq!(g.edit_buffer(), "12.5");
    g.delete_char();
    assert_eq!(g.edit_buffer(), "12.");
    g.type_char('7');
    assert_eq!(g.finish_editing(), "12.7");
    assert!(!g.is_editing());
    assert_eq!(g.edit_buffer(), "");
    g.delete_char();
    assert_eq!(g.edit_buffer(), "");
}

#[test]
fn hue_grid_start_and_cancel() {
    let mut g = HueGridInput::new();
    g.start_editing("145".to_string());
    assert!(g.is_editing());
    assert_eq!(g.edit_buffer(), "145");
    g.type_char('.');
    g.cancel_editing();
    assert!(!g.is_editing());
    assert_eq!(g.edit_buffer(), "");
}

#[test]
fn sample_snippet_items() {
    assert_eq!(MAX_ITEMS, 100);
    assert_eq!(VERSION, "1.0.0");
    let c = Config::new("demo");
    assert_eq!(c.name, "demo");
    assert_eq!(c.count, 0);
    assert!(c.enabled);
    let m = process(&[1, 2, -3, 4, 2]);
    assert_eq!(m.len(), 3);
    assert_eq!(m.get(&1), Some(&false));
    assert_eq!(m.get(&2), Some(&true));
    assert_eq!(m.get(&4), Some(&true));
    assert_eq!(m.get(&-3), None);
}

#[test]
fn hue_grid_moves_along_rows() {
    let mut g = HueGridInput::new();
    g.move_left();
    assert_eq!(g.selected(), 0);
    for expected in 1..8 {
        g.move_right();
        assert_eq!(g.selected(), expected);
    }
    g.move_right();
    assert_eq!(g.selected(), 7);
    g.move_left();
    assert_eq!(g.selected(), 6);
}

#[test]
fn hue_grid_edit_keys() {
    let mut g = HueGridInput::new();
    g.start_editing("25".to_string());
    assert_eq!(g.edit_key(EditKey::Char('5')), EditOutcome::Editing);
    assert_eq!(g.edit_key(EditKey::Char('x')), EditOutcome::Editing);
    assert_eq!(g.edit_key(EditKey::Other), EditOutcome::Editing);
    assert_eq!(g.edit_buffer(), "255");
    assert_eq!(g.edit_key(EditKey::Backspace), EditOutcome::Editing);
    assert_eq!(g.edit_key(EditKey::Enter), EditOutcome::Submitted("25".to_string()));
    assert!(!g.is_editing());
    g.start_editing("9".to_string());
    assert_eq!(g.edit_key(EditKey::Esc), EditOutcome::Cancelled);
    assert!(!g.is_editing());
    assert_eq!(g.edit_buffer(), "");
}

#[test]
fn footer_formatting() {
    let actions = [("Next component", "Tab"), ("Show help", "?"), ("  Quit  now", "q")];
    let extras = [("Edit hue value", "Enter")];
    assert_eq!(
        format_footer(&actions, &extras),
        "next: Tab | show: ? | quit: q | Edit hue value: Enter"
    );
    assert_eq!(format_footer(&[], &[]), "");
    assert_eq!(format_footer(&[("   ", "x")], &[]), "   : x");
    assert_eq!(format_footer(&[], &[("A", "b"), ("C", "d")]), "A: b | C: d");
    assert_eq!(format_footer(&[("Übersicht Teil", "u")], &[]), "übersicht: u");
}

fn fields(focus: Focus, name: &str, cursor: usize) -> TextFields {
    TextFields {
        focus,
        background_hex: "#000000".to_string(),
        foreground_hex: "#ffffff".to_string(),
        name: name.to_string(),
        author: String::new(),
        text_cursor: cursor,
    }
}

#[test]
fn text_field_insert() {
    let mut t = fields(Focus::Name, "ab", 1);
    assert_eq!(t.focused_text(), Some("ab"));
    t.insert_char('X');
    assert_eq!(t.name, "aXb");
    assert_eq!(t.text_cursor, 2);
    // a cursor past the end inserts at the end
    let mut t = fields(Focus::Name, "ab", 10);
    t.insert_char('c');
    assert_eq!(t.name, "abc");
    assert_eq!(t.text_cursor, 3);
    // the cursor counts bytes
    let mut t = fields(Focus::Name, "é", 2);
    t.insert_char('x');
    assert_eq!(t.name, "éx");
    assert_eq!(t.text_cursor, 3);
    assert_eq!(t.background_hex, "#000000");
}

#[test]
fn text_field_delete() {
    let mut t = fields(Focus::Name, "aXb", 2);
    t.delete_char_before();
    assert_eq!(t.name, "ab");
    assert_eq!(t.text_cursor, 1);
    t.delete_char_at();
    assert_eq!(t.name, "a");
    assert_eq!(t.text_cursor, 1);
    t.delete_char_at();
    assert_eq!(t.name, "a");
    let mut t = fields(Focus::Name, "abc", 0);
    t.delete_char_before();
    assert_eq!(t.name, "abc");
    assert_eq!(t.text_cursor, 0);
    let mut t = fields(Focus::Background, "x", 3);
    t.delete_char_before();
    assert_eq!(t.background_hex, "#00000");
    assert_eq!(t.text_cursor, 2);
}

#[test]
fn text_field_without_text_focus() {
    let mut t = fields(Focus::Variant, "ab", 1);
    assert_eq!(t.focused_text(), None);
    t.insert_char('z');
    t.delete_char_before();
    t.delete_char_at();
    assert_eq!(t.name, "ab");
    assert_eq!(t.text_cursor, 1);
}
