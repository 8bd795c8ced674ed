use lazyllama::app::App;
use lazyllama::keys::{key_action, Key, KeyAction, KeyOutcome};
use lazyllama::ui::{model_label, parse_history, process_styled_text, Color, Style, Text};
use lazyllama::utils::{history_file_name, model_file_name, model_history_files, sanitize_model_name};

fn two_model_app() -> App {
    let mut app = App::new(false);
    app.refresh_models(Some(vec!["m1".to_string(), "m2".to_string()]));
    app
}

fn type_text(app: &mut App, s: &str) {
    for c in s.chars() {
        app.insert_char(c);
    }
}

fn line_texts(t: &Text) -> Vec<Vec<String>> {
    t.lines
        .iter()
        .map(|l| l.spans.iter().map(|s| s.content.clone()).collect())
        .collect()
}

#[test]
fn multi_turn_multi_model_exchange() {
    let mut app = two_model_app();
    assert_eq!(app.selected, Some(0));
    type_text(&mut app, "hi");

    let request = app.send_query().expect("a model is selected");
    assert_eq!(request.model, "m1");
    assert_eq!(request.prompt, "hi");
    assert!(app.is_loading);
    assert!(app.autoscroll);
    assert_eq!(app.input, "");
    assert_eq!(app.cursor_pos, 0);
    assert_eq!(app.history, "\nYOU: hi\n\nAI: ");
    assert_eq!(app.buffers.get("m1").unwrap().history, "\nYOU: hi\n\nAI: ");

    app.append_fragment("Hel");
    app.append_fragment("lo");
    app.finish_query();
    assert!(!app.is_loading);
    let full = "\nYOU: hi\n\nAI: Hello\n---\n";
    assert_eq!(app.history, full);

    app.select_next_model();
    assert_eq!(app.selected, Some(1));
    assert_eq!(app.input, "");
    assert_eq!(app.history, "");

    app.select_previous_model();
    assert_eq!(app.selected, Some(0));
    assert_eq!(app.history, full);
}

#[test]
fn save_switch_load_round_trip() {
    let mut app = two_model_app();
    type_text(&mut app, "draft");
    app.move_cursor_left();
    app.history = "YOU: a\nAI: b".to_string();
    app.scroll = 3;
    app.save_current_model_buffers();

    app.select_next_model();
    type_text(&mut app, "other");
    app.history = "elsewhere".to_string();
    app.scroll = 7;

    app.select_previous_model();
    assert_eq!(app.input, "draft");
    assert_eq!(app.cursor_pos, 4);
    assert_eq!(app.history, "YOU: a\nAI: b");
    assert_eq!(app.scroll, 3);
}

#[test]
fn empty_model_list_leaves_state_unchanged() {
    let mut app = App::new(false);
    app.input = "keep".to_string();
    app.cursor_pos = 2;
    app.history = "log".to_string();
    app.scroll = 4;

    app.select_next_model();
    app.select_previous_model();
    app.save_current_model_buffers();
    app.load_current_model_buffers();

    assert_eq!(app.selected, None);
    assert_eq!(app.input, "keep");
    assert_eq!(app.cursor_pos, 2);
    assert_eq!(app.history, "log");
    assert_eq!(app.scroll, 4);
    assert!(app.buffers.entries.is_empty());
    assert!(app.send_query().is_none());
}

#[test]
fn insert_then_backspace_restores_state() {
    let mut app = two_model_app();
    type_text(&mut app, "abc");
    app.move_cursor_left();
    app.insert_char('ß');
    app.backspace();
    assert_eq!(app.input, "abc");
    assert_eq!(app.cursor_pos, 2);
}

#[test]
fn word_motions_skip_punctuation_then_word() {
    let mut app = two_model_app();
    app.input = "foo, bar".to_string();
    app.cursor_pos = 8;
    app.move_cursor_word_left();
    assert_eq!(app.cursor_pos, 5);
    app.move_cursor_word_left();
    assert_eq!(app.cursor_pos, 0);

    app.input = "  ab".to_string();
    app.cursor_pos = 2;
    app.delete_word_left();
    assert_eq!(app.input, "ab");
    assert_eq!(app.cursor_pos, 0);

    app.input = "ab..".to_string();
    app.cursor_pos = 2;
    app.delete_word_right();
    assert_eq!(app.input, "ab");
    assert_eq!(app.cursor_pos, 2);
}

#[test]
fn byte_index_past_end_is_byte_length() {
    let mut app = App::new(false);
    app.input = "a🦀b".to_string();
    assert_eq!(app.char_index_to_byte_index(1), 1);
    assert_eq!(app.char_index_to_byte_index(2), 5);
    assert_eq!(app.char_index_to_byte_index(99), 6);
}

#[test]
fn refresh_keeps_existing_records() {
    let mut app = two_model_app();
    type_text(&mut app, "kept");
    app.refresh_models(None);
    assert_eq!(app.models, vec!["m1".to_string(), "m2".to_string()]);
    assert_eq!(app.input, "kept");

    app.refresh_models(Some(vec!["m3".to_string(), "m1".to_string()]));
    assert_eq!(app.selected, Some(0));
    assert_eq!(app.input, "");
    assert_eq!(app.buffers.get("m1").unwrap().input, "kept");
    assert!(app.buffers.get("m3").is_some());

    app.refresh_models(Some(Vec::new()));
    assert_eq!(app.selected, None);
}

#[test]
fn exchange_guards_and_abort() {
    let mut app = two_model_app();
    type_text(&mut app, "q");
    assert!(app.send_query().is_some());
    assert!(app.send_query().is_none());
    app.abort_query();
    assert!(!app.is_loading);
    assert_eq!(app.history, "\nYOU: q\n\nAI: ");
    app.append_fragment("late");
    assert_eq!(app.history, "\nYOU: q\n\nAI: ");
    app.finish_query();
    assert_eq!(app.history, "\nYOU: q\n\nAI: ");
}

#[test]
fn scroll_fitting() {
    let mut app = App::new(false);
    app.fit_scroll(30, 10);
    assert_eq!(app.scroll, 20);
    app.fit_scroll(5, 10);
    assert_eq!(app.scroll, 0);

    app.scroll_down();
    assert!(!app.autoscroll);
    assert_eq!(app.scroll, 5);
    app.scroll = 50;
    app.fit_scroll(30, 10);
    assert_eq!(app.scroll, 20);
    app.scroll_up();
    assert_eq!(app.scroll, 15);
    app.fit_scroll(30, 10);
    assert_eq!(app.scroll, 15);
    app.scroll = 2;
    app.scroll_up();
    assert_eq!(app.scroll, 0);
}

#[test]
fn clear_and_toggle() {
    let mut app = two_model_app();
    app.history = "old".to_string();
    app.scroll = 9;
    app.autoscroll = false;
    app.clear_history();
    assert_eq!(app.history, "");
    assert_eq!(app.scroll, 0);
    assert!(app.autoscroll);
    assert_eq!(app.buffers.get("m1").unwrap().history, "");
    app.toggle_autoscroll();
    assert!(!app.autoscroll);
}

#[test]
fn blink_interval() {
    let mut app = App::new(false);
    assert!(!app.blink_after(499));
    assert!(app.cursor_visible);
    assert!(app.blink_after(500));
    assert!(!app.cursor_visible);
    assert!(app.blink_after(10_000));
    assert!(app.cursor_visible);
}

#[test]
fn renderer_scenario() {
    let parsed = parse_history("YOU: Show code\nAI: ```rust\nfn main(){}\n```\nDone");
    let texts = line_texts(&parsed);
    assert_eq!(
        texts,
        vec![
            vec!["YOU:".to_string(), " Show code".to_string()],
            vec!["AI: ".to_string(), " ".to_string()],
            vec![" ┌── rust ──".to_string()],
            vec![" │ ".to_string(), "fn main(){}".to_string()],
            vec![" └──────────".to_string()],
            vec!["".to_string()],
            vec!["Done".to_string()],
        ]
    );
    assert_eq!(parsed.lines[2].spans[0].style.fg, Some(Color::Yellow));
    assert_eq!(parsed.lines[6].spans[0].style, Style::default());
    assert_eq!(parsed.height(), 7);
}

#[test]
fn unterminated_fence_stays_text() {
    let parsed = parse_history("```rust\nfn incomplete()");
    assert_eq!(
        line_texts(&parsed),
        vec![vec!["```rust".to_string()], vec!["fn incomplete()".to_string()]]
    );
}

#[test]
fn empty_block_and_blank_lines() {
    let parsed = parse_history("```\n```");
    assert_eq!(
        line_texts(&parsed),
        vec![vec![" ┌── code ──".to_string()], vec![" └──────────".to_string()]]
    );
    let parsed = parse_history("a\n\nb\r\nc\n");
    assert_eq!(
        line_texts(&parsed),
        vec![
            vec!["a".to_string()],
            vec!["".to_string()],
            vec!["b".to_string()],
            vec!["c".to_string()],
        ]
    );
    assert_eq!(parse_history("").height(), 0);
}

#[test]
fn header_trimming() {
    let mut t = Text::new();
    process_styled_text("  ###  Title \t\n####x", &mut t);
    assert_eq!(t.lines[0].spans[0].content, "● Title");
    assert!(t.lines[0].spans[0].style.bold);
    assert_eq!(t.lines[1].spans[0].content, "● x");
}

#[test]
fn parsing_twice_gives_the_same_lines() {
    let history = "YOU: x\nAI: ```py\nprint(1)\n```\n### h\nend";
    let a = parse_history(history);
    let b = parse_history(history);
    assert_eq!(line_texts(&a), line_texts(&b));
    let styles_a: Vec<Vec<Style>> =
        a.lines.iter().map(|l| l.spans.iter().map(|s| s.style).collect()).collect();
    let styles_b: Vec<Vec<Style>> =
        b.lines.iter().map(|l| l.spans.iter().map(|s| s.style).collect()).collect();
    assert_eq!(styles_a, styles_b);
}

#[test]
fn key_bindings() {
    assert_eq!(key_action(Key::Char('q'), true), KeyAction::Quit);
    assert_eq!(key_action(Key::Char('q'), false), KeyAction::Insert('q'));
    assert_eq!(key_action(Key::Char('c'), true), KeyAction::ClearHistory);
    assert_eq!(key_action(Key::Char('s'), true), KeyAction::ToggleAutoscroll);
    assert_eq!(key_action(Key::Up, false), KeyAction::PreviousModel);
    assert_eq!(key_action(Key::Down, true), KeyAction::NextModel);
    assert_eq!(key_action(Key::Left, true), KeyAction::WordLeft);
    assert_eq!(key_action(Key::Backspace, true), KeyAction::DeleteWordLeft);
    assert_eq!(key_action(Key::Delete, false), KeyAction::DeleteForward);
    assert_eq!(key_action(Key::Other, false), KeyAction::Ignore);

    let mut app = two_model_app();
    assert_eq!(app.handle_key(Key::Enter, false), KeyOutcome::Continue);
    assert_eq!(app.handle_key(Key::Char('o'), false), KeyOutcome::Continue);
    assert_eq!(app.handle_key(Key::Char('k'), false), KeyOutcome::Continue);
    assert_eq!(app.input, "ok");
    assert_eq!(app.handle_key(Key::Home, false), KeyOutcome::Continue);
    assert_eq!(app.cursor_pos, 0);
    assert_eq!(app.handle_key(Key::Enter, false), KeyOutcome::Submit);
    assert_eq!(app.handle_key(Key::Char('q'), true), KeyOutcome::Quit);
    app.handle_key(Key::Down, false);
    assert_eq!(app.selected, Some(1));
}

#[test]
fn file_names() {
    assert_eq!(sanitize_model_name("invalid/model:name\\test"), "invalid_model_name_test");
    assert_eq!(model_file_name("llama2:7b", "2026-02-06_14-30-45"), "llama2_7b_2026-02-06_14-30-45.txt");
    assert_eq!(history_file_name("2026-02-06_14-30-45"), "chat_2026-02-06_14-30-45.txt");

    let mut app = App::new(false);
    app.refresh_models(Some(vec!["a:1".to_string(), "empty".to_string(), "b/2".to_string()]));
    app.history = "YOU: x".to_string();
    app.save_current_model_buffers();
    app.selected = Some(2);
    app.history = "YOU: y".to_string();
    app.save_current_model_buffers();
    let files = model_history_files(&app.buffers, "T");
    let got: Vec<(String, String)> = files.into_iter().map(|f| (f.name, f.contents)).collect();
    assert_eq!(
        got,
        vec![
            ("a_1_T.txt".to_string(), "YOU: x".to_string()),
            ("b_2_T.txt".to_string(), "YOU: y".to_string()),
        ]
    );
}

#[test]
fn editing_clamps_a_cursor_past_the_end() {
    let mut app = App::new(false);
    app.input = "abc".to_string();
    app.cursor_pos = 10;
    app.backspace();
    assert_eq!(app.input, "ab");
    assert_eq!(app.cursor_pos, 2);

    app.cursor_pos = 7;
    app.insert_char('x');
    assert_eq!(app.input, "abx");
    assert_eq!(app.cursor_pos, 3);

    app.cursor_pos = 9;
    app.delete_forward();
    assert_eq!(app.input, "abx");
    assert_eq!(app.cursor_pos, 3);

    app.cursor_pos = 9;
    app.move_cursor_left();
    assert_eq!(app.cursor_pos, 2);
}

#[test]
fn input_split_at_cursor() {
    let mut app = App::new(false);
    app.input = "aüc".to_string();
    app.cursor_pos = 1;
    assert_eq!(app.input_parts(), ("a".to_string(), Some('ü'), "c".to_string()));
    app.cursor_pos = 3;
    assert_eq!(app.input_parts(), ("aüc".to_string(), None, String::new()));
    app.cursor_pos = 0;
    assert_eq!(app.input_parts(), (String::new(), Some('a'), "üc".to_string()));
}

#[test]
fn model_list_labels() {
    assert_eq!(model_label("m", 0), "m");
    assert_eq!(model_label("m", 12), "m [📄]");
    assert_eq!(model_label("m", 1000), "m [📄]");
    assert_eq!(model_label("m", 1001), "m [📝]");
}

#[test]
fn keys_change_the_session() {
    let mut app = two_model_app();
    app.handle_key(Key::Char('a'), false);
    app.handle_key(Key::Char('b'), false);
    app.handle_key(Key::Char(' '), false);
    app.handle_key(Key::Char('c'), false);
    app.handle_key(Key::Left, true);
    assert_eq!(app.cursor_pos, 3);
    app.handle_key(Key::Backspace, true);
    assert_eq!(app.input, "c");
    assert_eq!(app.cursor_pos, 0);
    app.handle_key(Key::End, false);
    app.handle_key(Key::Backspace, false);
    assert_eq!(app.input, "");
    app.history = "h".to_string();
    app.handle_key(Key::Char('c'), true);
    assert_eq!(app.history, "");
    app.handle_key(Key::PageDown, false);
    assert_eq!(app.scroll, 5);
    assert!(!app.autoscroll);
    app.handle_key(Key::Char('s'), true);
    assert!(app.autoscroll);
    app.handle_key(Key::Down, false);
    assert_eq!(app.selected, Some(1));
    app.handle_key(Key::Up, false);
    assert_eq!(app.selected, Some(0));
}
