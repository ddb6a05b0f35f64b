use editor_core::buffer::Buffer;
use editor_core::display::{text_color, DisplayCommand, FontMetrics, ViewState};
use editor_core::window::EditorWindow;

fn metrics() -> FontMetrics {
    FontMetrics { advance: 8, height: 13, line_spacing: 15 }
}

#[test]
fn new_window_has_one_view_on_an_empty_buffer() {
    let win = EditorWindow::new(640, 480, 15, None);
    assert_eq!(win.width(), 640);
    assert_eq!(win.height(), 480);
    assert_eq!(win.font_height(), 15);
    assert_eq!(win.current_view(), 0);
    assert_eq!(
        *win.view(),
        ViewState { index: 0, selection: None, first_visible_line: 0, page_length: 31 }
    );
    assert_eq!(win.buffer().to_string(), "");
    assert_eq!(win.buffer().get_filename(), None);
}

#[test]
fn new_window_shows_the_given_buffer() {
    let file = Buffer::from_file("poem.txt", b"roses\nviolets\n").unwrap();
    let win = EditorWindow::new(640, 480, 15, Some(file));
    assert_eq!(win.buffer().to_string(), "roses\nviolets\n");
    assert_eq!(win.buffer().get_filename(), Some("poem.txt"));
    assert_eq!(win.view().page_length, 31);
}

#[test]
fn resize_recomputes_the_page_length() {
    let mut win = EditorWindow::new(640, 480, 15, None);
    assert_eq!(win.view().page_length, 480 / 15 - 1);
    win.resize(640, 600);
    assert_eq!(win.width(), 640);
    assert_eq!(win.height(), 600);
    assert_eq!(win.view().page_length, 39);
    win.resize(300, 15);
    assert_eq!(win.width(), 300);
    assert_eq!(win.view().page_length, 0);
    win.resize(300, 44);
    assert_eq!(win.view().page_length, 1);
    assert_eq!(win.font_height(), 15);
}

#[test]
fn resize_keeps_caret_and_text() {
    let mut win = EditorWindow::new(640, 480, 15, Some(Buffer::from_str("ab\ncd")));
    {
        let (view, _) = win.active_mut();
        view.index = 4;
        view.selection = Some(1..2);
        view.first_visible_line = 1;
    }
    win.resize(800, 600);
    assert_eq!(
        *win.view(),
        ViewState { index: 4, selection: Some(1..2), first_visible_line: 1, page_length: 39 }
    );
    assert_eq!(win.buffer().to_string(), "ab\ncd");
}

#[test]
fn active_mut_changes_view_and_buffer_in_place() {
    let mut win = EditorWindow::new(640, 480, 15, Some(Buffer::from_str("ac")));
    {
        let (view, buffer) = win.active_mut();
        buffer.insert_char(1, 'b');
        view.index = 2;
    }
    assert_eq!(win.buffer().to_string(), "abc");
    assert!(win.buffer().is_dirty());
    assert_eq!(win.view().index, 2);
    assert_eq!(win.view().page_length, 31);
}

#[test]
fn draw_appends_the_display_list_of_the_active_view() {
    let mut win = EditorWindow::new(640, 480, 15, Some(Buffer::from_str("a\nb")));
    win.active_mut().0.index = 3;
    let mut list = vec![DisplayCommand::Move(7, 7)];
    win.draw(&mut list, &metrics());
    assert_eq!(
        list,
        vec![
            DisplayCommand::Move(7, 7),
            DisplayCommand::Move(0, 0),
            DisplayCommand::Char('a', text_color()),
            DisplayCommand::Move(0, 15),
            DisplayCommand::Char('b', text_color()),
            DisplayCommand::Move(8, 15),
            DisplayCommand::Rect(2, 13, text_color()),
        ]
    );
}

#[test]
fn draw_clips_at_the_height_of_the_window() {
    let mut win = EditorWindow::new(640, 30, 15, Some(Buffer::from_str("a\nb\nc\nd\ne")));
    win.active_mut().0.index = 100;
    let mut list = Vec::new();
    win.draw(&mut list, &metrics());
    // lines at y = 0, 15 and 30 are drawn, the line at 45 is not
    assert_eq!(list.len(), 6);
    win.resize(640, 45);
    let mut list = Vec::new();
    win.draw(&mut list, &metrics());
    assert_eq!(list.len(), 8);
}

#[test]
fn try_draw_refuses_a_view_scrolled_past_the_buffer() {
    let mut win = EditorWindow::new(640, 480, 15, Some(Buffer::from_str("a\nb")));
    win.active_mut().0.index = 3;
    win.active_mut().0.first_visible_line = 2;
    let mut list = vec![DisplayCommand::Move(7, 7)];
    assert!(win.try_draw(&mut list, &metrics()));
    assert_eq!(list.len(), 3);
    win.active_mut().0.first_visible_line = 3;
    assert!(!win.try_draw(&mut list, &metrics()));
    assert_eq!(list.len(), 3);
    win.active_mut().0.first_visible_line = 0;
    let mut drawn = Vec::new();
    win.draw(&mut drawn, &metrics());
    let mut tried = Vec::new();
    assert!(win.try_draw(&mut tried, &metrics()));
    assert_eq!(drawn, tried);
}
