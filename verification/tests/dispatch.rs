use image_converter::app::{App, InputMode, KeyInput};
use image_converter::convert::Converter;
use image_converter::format::ImageFormat;
use image_converter::text::status_of;

struct RecordingConverter {
    calls: Vec<(String, String, ImageFormat)>,
    fail_on: Option<String>,
}

impl RecordingConverter {
    fn new() -> RecordingConverter {
        RecordingConverter {
            calls: Vec::new(),
            fail_on: None,
        }
    }

    fn failing_on(path: &str) -> RecordingConverter {
        RecordingConverter {
            calls: Vec::new(),
            fail_on: Some(path.to_string()),
        }
    }
}

impl Converter for RecordingConverter {
    fn convert(
        &mut self,
        input: &str,
        output_folder: &str,
        format: ImageFormat,
    ) -> Result<(), String> {
        self.calls
            .push((input.to_string(), output_folder.to_string(), format));
        match &self.fail_on {
            Some(bad) if input == bad.as_str() => Err("file not found".to_string()),
            _ => Ok(()),
        }
    }
}

fn type_text(app: &mut App, conv: &mut RecordingConverter, text: &str) {
    for c in text.chars() {
        let quit = app.handle_key_event(KeyInput::Char(c), conv);
        assert!(!quit);
    }
}

#[test]
fn default_session() {
    let app = App::default();
    assert!(app.images.is_empty());
    assert_eq!(app.output_folder, "./output");
    assert_eq!(app.selected_format, ImageFormat::Png);
    assert_eq!(app.input_mode, InputMode::Normal);
    assert_eq!(app.input_buffer, "");
}

#[test]
fn quit_only_in_normal_mode() {
    let mut app = App::default();
    let mut conv = RecordingConverter::new();
    assert!(app.handle_key_event(KeyInput::Char('q'), &mut conv));

    let mut app = App::default();
    assert!(!app.handle_key_event(KeyInput::Char('a'), &mut conv));
    assert_eq!(app.input_mode, InputMode::AddingImage);
    assert!(!app.handle_key_event(KeyInput::Char('q'), &mut conv));
    assert_eq!(app.input_buffer, "q");
    assert_eq!(app.input_mode, InputMode::AddingImage);
}

#[test]
fn format_cycles_in_fixed_order() {
    let mut app = App::default();
    let mut conv = RecordingConverter::new();
    assert_eq!(app.selected_format, ImageFormat::Png);
    app.handle_key_event(KeyInput::Char('f'), &mut conv);
    assert_eq!(app.selected_format, ImageFormat::Jpeg);
    app.handle_key_event(KeyInput::Char('f'), &mut conv);
    assert_eq!(app.selected_format, ImageFormat::Webp);
    app.handle_key_event(KeyInput::Char('F'), &mut conv);
    assert_eq!(app.selected_format, ImageFormat::Gif);
    app.handle_key_event(KeyInput::Char('f'), &mut conv);
    assert_eq!(app.selected_format, ImageFormat::Png);
}

#[test]
fn add_images_round_trip() {
    let mut app = App::default();
    let mut conv = RecordingConverter::new();
    app.handle_key_event(KeyInput::Char('a'), &mut conv);
    type_text(&mut app, &mut conv, "x.png y.png");
    app.handle_key_event(KeyInput::Enter, &mut conv);
    assert_eq!(app.images, vec!["x.png", "y.png"]);
    assert_eq!(app.input_mode, InputMode::Normal);
    assert_eq!(app.input_buffer, "");
}

#[test]
fn adding_images_clears_previous_queue() {
    let mut app = App::default();
    let mut conv = RecordingConverter::new();
    app.images = vec!["old.png".to_string()];
    app.handle_key_event(KeyInput::Char('a'), &mut conv);
    assert!(app.images.is_empty());
    assert_eq!(app.input_mode, InputMode::AddingImage);
}

#[test]
fn partial_failure_conversion() {
    let mut app = App::default();
    let mut conv = RecordingConverter::failing_on("missing.png");
    app.images = vec!["good.png".to_string(), "missing.png".to_string()];
    let quit = app.handle_key_event(KeyInput::Char('c'), &mut conv);
    assert!(!quit);
    assert_eq!(app.images[0], "Converted good.png successfully");
    assert_eq!(app.images[1], "Error converting missing.png: file not found");
    assert!(app.images[1].contains("missing.png"));
    assert_eq!(conv.calls.len(), 2);
    assert_eq!(conv.calls[0].0, "good.png");
    assert_eq!(conv.calls[1].0, "missing.png");
}

#[test]
fn conversion_hands_over_directory_and_format() {
    let mut app = App::default();
    let mut conv = RecordingConverter::new();
    app.images = vec!["a.png".to_string()];
    app.selected_format = ImageFormat::Webp;
    app.output_folder = "out".to_string();
    app.handle_key_event(KeyInput::Char('c'), &mut conv);
    assert_eq!(
        conv.calls,
        vec![("a.png".to_string(), "out".to_string(), ImageFormat::Webp)]
    );
}

#[test]
fn no_conversion_while_typing() {
    let mut app = App::default();
    let mut conv = RecordingConverter::new();
    app.images = vec!["a.png".to_string()];
    app.handle_key_event(KeyInput::Char('o'), &mut conv);
    app.handle_key_event(KeyInput::Char('c'), &mut conv);
    assert!(conv.calls.is_empty());
    assert_eq!(app.input_buffer, "c");
    app.handle_key_event(KeyInput::Esc, &mut conv);
    assert_eq!(app.images, vec!["a.png"]);
}

#[test]
fn escape_discards_pending_output_directory() {
    let mut app = App::default();
    let mut conv = RecordingConverter::new();
    app.handle_key_event(KeyInput::Char('o'), &mut conv);
    assert_eq!(app.input_mode, InputMode::SettingOutput);
    type_text(&mut app, &mut conv, "elsewhere");
    app.handle_key_event(KeyInput::Esc, &mut conv);
    assert_eq!(app.output_folder, "./output");
    assert_eq!(app.input_mode, InputMode::Normal);
    assert_eq!(app.input_buffer, "");
}

#[test]
fn enter_commits_trimmed_output_directory() {
    let mut app = App::default();
    let mut conv = RecordingConverter::new();
    app.handle_key_event(KeyInput::Char('o'), &mut conv);
    type_text(&mut app, &mut conv, "  /tmp/out  ");
    app.handle_key_event(KeyInput::Enter, &mut conv);
    assert_eq!(app.output_folder, "/tmp/out");
    assert_eq!(app.input_mode, InputMode::Normal);
}

#[test]
fn whitespace_only_output_directory_is_ignored() {
    let mut app = App::default();
    let mut conv = RecordingConverter::new();
    app.handle_key_event(KeyInput::Char('o'), &mut conv);
    type_text(&mut app, &mut conv, "   ");
    app.handle_key_event(KeyInput::Enter, &mut conv);
    assert_eq!(app.output_folder, "./output");
    assert_eq!(app.input_mode, InputMode::Normal);
    assert_eq!(app.input_buffer, "");
}

#[test]
fn unicode_whitespace_is_trimmed_from_output_directory() {
    let mut app = App::default();
    let mut conv = RecordingConverter::new();
    app.handle_key_event(KeyInput::Char('o'), &mut conv);
    type_text(&mut app, &mut conv, "\u{a0} /tmp/out\u{2003} ");
    app.handle_key_event(KeyInput::Enter, &mut conv);
    assert_eq!(app.output_folder, "/tmp/out");
}

#[test]
fn status_lines_follow_the_outcome() {
    assert_eq!(
        status_of("a.png", Ok(())),
        "Converted a.png successfully"
    );
    assert_eq!(
        status_of("a.png", Err("no such file".to_string())),
        "Error converting a.png: no such file"
    );
}

#[test]
fn enter_with_empty_text_commits_nothing() {
    let mut app = App::default();
    let mut conv = RecordingConverter::new();
    app.handle_key_event(KeyInput::Char('o'), &mut conv);
    app.handle_key_event(KeyInput::Enter, &mut conv);
    assert_eq!(app.output_folder, "./output");
    assert_eq!(app.input_mode, InputMode::Normal);

    app.handle_key_event(KeyInput::Char('a'), &mut conv);
    app.handle_key_event(KeyInput::Enter, &mut conv);
    assert!(app.images.is_empty());
    assert_eq!(app.input_mode, InputMode::Normal);
}

#[test]
fn backspace_removes_last_character() {
    let mut app = App::default();
    let mut conv = RecordingConverter::new();
    app.handle_key_event(KeyInput::Char('a'), &mut conv);
    type_text(&mut app, &mut conv, "ab");
    app.handle_key_event(KeyInput::Backspace, &mut conv);
    assert_eq!(app.input_buffer, "a");
    app.handle_key_event(KeyInput::Backspace, &mut conv);
    assert_eq!(app.input_buffer, "");
    app.handle_key_event(KeyInput::Backspace, &mut conv);
    assert_eq!(app.input_buffer, "");
    assert_eq!(app.input_mode, InputMode::AddingImage);
}

#[test]
fn unhandled_keys_change_nothing_in_normal_mode() {
    let mut app = App::default();
    let mut conv = RecordingConverter::new();
    app.images = vec!["a.png".to_string()];
    assert!(!app.handle_key_event(KeyInput::Char('x'), &mut conv));
    assert!(!app.handle_key_event(KeyInput::Enter, &mut conv));
    assert!(!app.handle_key_event(KeyInput::Backspace, &mut conv));
    assert!(!app.handle_key_event(KeyInput::Esc, &mut conv));
    assert!(!app.handle_key_event(KeyInput::Other, &mut conv));
    assert_eq!(app.images, vec!["a.png"]);
    assert_eq!(app.input_mode, InputMode::Normal);
    assert_eq!(app.selected_format, ImageFormat::Png);
    assert!(conv.calls.is_empty());
}

#[test]
fn appended_paths_join_existing_queue() {
    let mut app = App::default();
    let mut conv = RecordingConverter::new();
    app.handle_key_event(KeyInput::Char('a'), &mut conv);
    type_text(&mut app, &mut conv, "\"with space.png\",b.gif");
    app.handle_key_event(KeyInput::Enter, &mut conv);
    assert_eq!(app.images, vec!["with space.png", "b.gif"]);
}
