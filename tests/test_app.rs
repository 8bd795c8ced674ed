use std::time::{Duration, Instant};

use lazyllama::app::App;

fn create_test_app() -> App {
    let mut app = App::new(false);
    app.models = vec!["test_model_1".to_string(), "test_model_2".to_string()];
    app.selected = Some(0);
    app
}

#[test]
fn test_insert_char() {
    let mut app = create_test_app();

    app.insert_char('H');
    assert_eq!(app.input, "H");
    assert_eq!(app.cursor_pos, 1);

    app.insert_char('e');
    assert_eq!(app.input, "He");
    assert_eq!(app.cursor_pos, 2);

    app.insert_char('ö');
    assert_eq!(app.input, "Heö");
    assert_eq!(app.cursor_pos, 3);
}

#[test]
fn test_backspace() {
    let mut app = create_test_app();
    app.input = "Hello".to_string();
    app.cursor_pos = 5;

    app.backspace();
    assert_eq!(app.input, "Hell");
    assert_eq!(app.cursor_pos, 4);

    app.cursor_pos = 0;
    app.backspace();
    assert_eq!(app.input, "Hell");
    assert_eq!(app.cursor_pos, 0);
}

#[test]
fn test_delete_forward() {
    let mut app = create_test_app();
    app.input = "Hello".to_string();
    app.cursor_pos = 2;

    app.delete_forward();
    assert_eq!(app.input, "Helo");
    assert_eq!(app.cursor_pos, 2);

    app.cursor_pos = 4;
    app.delete_forward();
    assert_eq!(app.input, "Helo");
    assert_eq!(app.cursor_pos, 4);
}

#[test]
fn test_move_cursor_left() {
    let mut app = create_test_app();
    app.input = "Test".to_string();
    app.cursor_pos = 2;

    app.move_cursor_left();
    assert_eq!(app.cursor_pos, 1);

    app.cursor_pos = 0;
    app.move_cursor_left();
    assert_eq!(app.cursor_pos, 0);
}

#[test]
fn test_move_cursor_right() {
    let mut app = create_test_app();
    app.input = "Test".to_string();
    app.cursor_pos = 2;

    app.move_cursor_right();
    assert_eq!(app.cursor_pos, 3);

    app.cursor_pos = 4;
    app.move_cursor_right();
    assert_eq!(app.cursor_pos, 4);
}

#[test]
fn test_move_cursor_home_end() {
    let mut app = create_test_app();
    app.input = "Hello World".to_string();
    app.cursor_pos = 5;

    app.move_cursor_home();
    assert_eq!(app.cursor_pos, 0);

    app.move_cursor_end();
    assert_eq!(app.cursor_pos, 11);
}

#[test]
fn test_word_navigation() {
    let mut app = create_test_app();
    app.input = "Hello World Test".to_string();
    app.cursor_pos = 16;

    app.move_cursor_word_left();
    assert_eq!(app.cursor_pos, 12);

    app.move_cursor_word_left();
    assert_eq!(app.cursor_pos, 6);

    app.move_cursor_word_left();
    assert_eq!(app.cursor_pos, 0);

    app.move_cursor_word_right();
    assert_eq!(app.cursor_pos, 5);

    app.move_cursor_word_right();
    assert_eq!(app.cursor_pos, 11);

    app.move_cursor_word_right();
    assert_eq!(app.cursor_pos, 16);
}

#[test]
fn test_delete_word_left() {
    let mut app = create_test_app();
    app.input = "Hello World Test".to_string();
    app.cursor_pos = 16;

    app.delete_word_left();
    assert_eq!(app.input, "Hello World ");
    assert_eq!(app.cursor_pos, 12);

    app.delete_word_left();
    assert_eq!(app.input, "Hello ");
    assert_eq!(app.cursor_pos, 6);
}

#[test]
fn test_delete_word_right() {
    let mut app = create_test_app();
    app.input = "Hello World Test".to_string();
    app.cursor_pos = 0;

    app.delete_word_right();
    assert_eq!(app.input, " World Test");
    assert_eq!(app.cursor_pos, 0);

    app.delete_word_right();
    assert_eq!(app.input, " Test");
    assert_eq!(app.cursor_pos, 0);
}

#[test]
fn test_is_word_char() {
    assert!(App::is_word_char('a'));
    assert!(App::is_word_char('Z'));
    assert!(App::is_word_char('5'));
    assert!(App::is_word_char('_'));
    assert!(!App::is_word_char(' '));
    assert!(!App::is_word_char('.'));
    assert!(!App::is_word_char('-'));
}

#[test]
fn test_model_selection_next() {
    let mut app = create_test_app();
    app.models = vec!["model1".to_string(), "model2".to_string(), "model3".to_string()];
    app.selected = Some(0);

    app.select_next_model();
    assert_eq!(app.selected, Some(1));

    app.select_next_model();
    assert_eq!(app.selected, Some(2));

    app.select_next_model();
    assert_eq!(app.selected, Some(0));
}

#[test]
fn test_model_selection_previous() {
    let mut app = create_test_app();
    app.models = vec!["model1".to_string(), "model2".to_string(), "model3".to_string()];
    app.selected = Some(2);

    app.select_previous_model();
    assert_eq!(app.selected, Some(1));

    app.select_previous_model();
    assert_eq!(app.selected, Some(0));

    app.select_previous_model();
    assert_eq!(app.selected, Some(2));
}

#[test]
fn test_model_buffer_save_load() {
    let mut app = create_test_app();
    app.models = vec!["model1".to_string(), "model2".to_string()];
    app.selected = Some(0);

    app.input = "Test input".to_string();
    app.cursor_pos = 5;
    app.history = "Test history".to_string();
    app.scroll = 10;

    app.save_current_model_buffers();

    let saved = app.buffers.get("model1").expect("record for model1");
    assert_eq!(saved.input, "Test input".to_string());
    assert_eq!(saved.cursor_pos, 5);
    assert_eq!(saved.history, "Test history".to_string());
    assert_eq!(saved.scroll, 10);

    app.selected = Some(1);
    app.input = "Different input".to_string();
    app.cursor_pos = 8;
    app.history = "Different history".to_string();
    app.scroll = 5;

    app.selected = Some(0);
    app.load_current_model_buffers();

    assert_eq!(app.input, "Test input");
    assert_eq!(app.cursor_pos, 5);
    assert_eq!(app.history, "Test history");
    assert_eq!(app.scroll, 10);
}

#[test]
fn test_cursor_blink_timing() {
    let mut app = create_test_app();

    assert!(app.cursor_visible);

    assert!(!app.update_cursor_blink());
    assert!(app.cursor_visible);

    app.last_cursor_blink = Instant::now() - Duration::from_millis(600);
    assert!(app.update_cursor_blink());
    assert!(!app.cursor_visible);

    app.reset_cursor_blink();
    assert!(app.cursor_visible);
}

#[test]
fn test_char_index_to_byte_index() {
    let mut app = create_test_app();
    app.input = "Hëllö Wörld".to_string();

    assert_eq!(app.char_index_to_byte_index(0), 0);
    assert_eq!(app.char_index_to_byte_index(1), 1);
    assert_eq!(app.char_index_to_byte_index(2), 3);
    assert_eq!(app.char_index_to_byte_index(11), app.input.len());
}

#[test]
fn test_cursor_clamp() {
    let mut app = create_test_app();
    app.input = "Test".to_string();
    app.cursor_pos = 10;

    app.clamp_cursor();
    assert_eq!(app.cursor_pos, 4);
}

#[test]
fn test_empty_model_list_handling() {
    let mut app = create_test_app();
    app.models.clear();
    app.selected = None;

    app.select_next_model();
    app.select_previous_model();
    app.save_current_model_buffers();
    app.load_current_model_buffers();

    assert_eq!(app.models.len(), 0);
}

#[test]
fn test_unicode_text_editing() {
    let mut app = create_test_app();

    app.insert_char('🦀');
    app.insert_char('ü');
    app.insert_char('A');

    assert_eq!(app.input, "🦀üA");
    assert_eq!(app.cursor_pos, 3);

    app.backspace();
    assert_eq!(app.input, "🦀ü");
    assert_eq!(app.cursor_pos, 2);

    app.move_cursor_left();
    app.delete_forward();
    assert_eq!(app.input, "🦀");
    assert_eq!(app.cursor_pos, 1);
}
