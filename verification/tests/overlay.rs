use twitch_overlay::app_state::{create, AppState, Effect};
use twitch_overlay::config::{
    settings_or_defaults, Position, Settings, DEFAULT_HEIGHT, DEFAULT_MARGIN,
    DEFAULT_OPACITY_BITS, DEFAULT_WIDTH,
};
use twitch_overlay::ipc::Command;
use twitch_overlay::layer_shell_setup::{
    click_through_region, setup_plan, Edge, InputRegion, Layer, NO_EXCLUSIVE_ZONE,
};

#[test]
fn create_keeps_startup_value() {
    assert!(create(true).click_through);
    assert!(!create(false).click_through);
}

#[test]
fn toggle_flips_and_reports_new_value() {
    let mut state = create(true);
    assert_eq!(state.apply(Command::Toggle), Effect::ApplyClickThrough(false));
    assert!(!state.click_through);
    assert_eq!(state.apply(Command::Toggle), Effect::ApplyClickThrough(true));
    assert!(state.click_through);
}

#[test]
fn enable_and_disable_are_absolute() {
    let mut state = create(false);
    assert_eq!(state.apply(Command::Enable), Effect::ApplyClickThrough(true));
    assert_eq!(state.apply(Command::Enable), Effect::ApplyClickThrough(true));
    assert!(state.click_through);
    assert_eq!(state.apply(Command::Disable), Effect::ApplyClickThrough(false));
    assert_eq!(state.apply(Command::Disable), Effect::ApplyClickThrough(false));
    assert!(!state.click_through);
}

#[test]
fn window_commands_keep_click_through() {
    for start in [true, false] {
        let mut state = create(start);
        assert_eq!(state.apply(Command::Show), Effect::Present);
        assert_eq!(state.apply(Command::Hide), Effect::Hide);
        assert_eq!(state.apply(Command::Reload), Effect::Reload);
        assert_eq!(state.apply(Command::Quit), Effect::Quit);
        assert_eq!(state, AppState { click_through: start });
    }
}

#[test]
fn default_position_is_top_right() {
    assert_eq!(Position::default(), Position::TopRight);
}

#[test]
fn default_settings_match_readme() {
    let s = Settings::default();
    assert_eq!(s.url, "https://example.com");
    assert_eq!(f64::from_bits(s.opacity_bits), 0.85);
    assert_eq!(DEFAULT_OPACITY_BITS, 0.85f64.to_bits());
    assert_eq!(s.position, Position::TopRight);
    assert_eq!(s.margin, 20);
    assert_eq!(s.width, 400);
    assert_eq!(s.height, 600);
    assert_eq!((DEFAULT_MARGIN, DEFAULT_WIDTH, DEFAULT_HEIGHT), (20, 400, 600));
    assert!(!s.debug);
    assert!(s.click_through);
}

#[test]
fn parsed_settings_are_used_and_not_written() {
    let mut custom = Settings::default();
    custom.url = String::from("https://chat.example.org/widget");
    custom.position = Position::BottomLeft;
    custom.margin = 5;
    custom.width = 320;
    custom.height = 240;
    custom.debug = true;
    custom.click_through = false;
    custom.opacity_bits = 0.5f64.to_bits();
    let loaded = settings_or_defaults(Some(custom));
    assert!(!loaded.write_back);
    assert_eq!(loaded.settings.url, "https://chat.example.org/widget");
    assert_eq!(loaded.settings.position, Position::BottomLeft);
    assert_eq!(loaded.settings.margin, 5);
    assert_eq!(loaded.settings.width, 320);
    assert_eq!(loaded.settings.height, 240);
    assert!(loaded.settings.debug);
    assert!(!loaded.settings.click_through);
    assert_eq!(f64::from_bits(loaded.settings.opacity_bits), 0.5);
}

#[test]
fn missing_settings_fall_back_to_defaults_and_are_written() {
    let loaded = settings_or_defaults(None);
    assert!(loaded.write_back);
    assert_eq!(loaded.settings.url, "https://example.com");
    assert_eq!(loaded.settings.position, Position::TopRight);
    assert_eq!(loaded.settings.margin, 20);
    assert!(loaded.settings.click_through);
}

fn settings_at(position: Position, margin: i32) -> Settings {
    let mut s = Settings::default();
    s.position = position;
    s.margin = margin;
    s
}

#[test]
fn setup_anchors_to_configured_corner() {
    let state = create(true);
    let cases = [
        (Position::TopLeft, Edge::Top, Edge::Left),
        (Position::TopRight, Edge::Top, Edge::Right),
        (Position::BottomLeft, Edge::Bottom, Edge::Left),
        (Position::BottomRight, Edge::Bottom, Edge::Right),
    ];
    for (position, vertical, horizontal) in cases {
        let plan = setup_plan(&settings_at(position, 33), &state);
        assert_eq!(plan.vertical, vertical);
        assert_eq!(plan.horizontal, horizontal);
        assert_eq!(plan.margin, 33);
        assert_eq!(plan.layer, Layer::Top);
        assert_eq!(plan.exclusive_zone, NO_EXCLUSIVE_ZONE);
        assert_eq!(NO_EXCLUSIVE_ZONE, -1);
        assert!(!plan.keyboard_focus);
    }
}

#[test]
fn setup_empties_input_only_with_click_through() {
    let settings = Settings::default();
    assert!(setup_plan(&settings, &create(true)).empty_input_on_realize);
    assert!(!setup_plan(&settings, &create(false)).empty_input_on_realize);
}

#[test]
fn click_through_region_cases() {
    assert_eq!(click_through_region(true, 400, 600), InputRegion::Empty);
    assert_eq!(click_through_region(true, 0, 0), InputRegion::Empty);
    assert_eq!(
        click_through_region(false, 400, 600),
        InputRegion::Whole { width: 400, height: 600 }
    );
    assert_eq!(click_through_region(false, 0, 600), InputRegion::Keep);
    assert_eq!(click_through_region(false, 400, 0), InputRegion::Keep);
    assert_eq!(click_through_region(false, -5, 10), InputRegion::Keep);
}

#[test]
fn toggle_then_region_follows_state() {
    let mut state = create(true);
    let effect = state.apply(Command::Toggle);
    match effect {
        Effect::ApplyClickThrough(value) => {
            assert_eq!(value, state.click_through);
            assert_eq!(
                click_through_region(value, 400, 600),
                InputRegion::Whole { width: 400, height: 600 }
            );
        }
        _ => panic!("toggle must touch the input region"),
    }
}

#[test]
fn batch_of_commands_ends_at_fold() {
    let batch = [
        Command::Toggle,
        Command::Show,
        Command::Enable,
        Command::Toggle,
        Command::Hide,
        Command::Disable,
        Command::Toggle,
    ];
    let mut state = create(true);
    let mut expected = true;
    for command in batch {
        state.apply(command);
        expected = match command {
            Command::Toggle => !expected,
            Command::Enable => true,
            Command::Disable => false,
            _ => expected,
        };
        assert_eq!(state.click_through, expected);
    }
    assert!(state.click_through);
}
