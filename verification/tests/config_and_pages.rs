use chat_notes::app_config::AppConfig;
use chat_notes::note_schema::{CreateNoteSchema, Pagination, ParamOptions};

#[test]
fn port_and_url_come_back() {
    let config = AppConfig::from_settings(8080, String::from("postgres://localhost/notes"));
    assert_eq!(config.port, 8080);
    assert_eq!(config.get_port(), 8080);
    assert_eq!(config.get_database_url(), "postgres://localhost/notes");
}

#[test]
fn port_is_cut_to_sixteen_bits() {
    let config = AppConfig::from_settings(70000, String::new());
    assert_eq!(config.get_port(), 4464);
    let config = AppConfig::from_settings(65536, String::new());
    assert_eq!(config.get_port(), 0);
}

#[test]
fn negative_port_setting_wraps_like_as() {
    let config = AppConfig::from_settings(-1, String::new());
    assert_eq!(config.port, usize::MAX);
    assert_eq!(config.get_port(), 65535);
}

#[test]
fn default_config_is_empty() {
    let config = AppConfig::default();
    assert_eq!(config.port, 0);
    assert_eq!(config.get_database_url(), "");
}

#[test]
fn default_pagination_is_first_page_of_ten() {
    let p = Pagination::default();
    assert_eq!(p.page, 1);
    assert_eq!(p.limit, 10);
    assert_eq!(p.limit_and_offset(), (10, 0));
}

#[test]
fn offset_skips_earlier_pages() {
    let p = Pagination { page: 3, limit: 25 };
    assert_eq!(p.limit_and_offset(), (25, 50));
}

#[test]
fn consecutive_pages_are_adjacent() {
    let first = Pagination { page: 4, limit: 7 }.limit_and_offset();
    let next = Pagination { page: 5, limit: 7 }.limit_and_offset();
    assert_eq!(next.1, first.1 + first.0);
}

#[test]
fn window_is_cut_to_thirty_two_bits() {
    let p = Pagination { page: 2, limit: 1usize << 32 };
    assert_eq!(p.limit_and_offset(), (0, 0));
    let p = Pagination { page: 1, limit: 3_000_000_000 };
    assert_eq!(p.limit_and_offset(), (3_000_000_000u32 as i32, 0));
}

#[test]
fn insert_values_default_the_category() {
    let body = CreateNoteSchema {
        title: String::from("t"),
        content: String::from("c"),
        category: None,
        published: Some(true),
    };
    let values = body.insert_values();
    assert_eq!(values.title, "t");
    assert_eq!(values.content, "c");
    assert_eq!(values.category, "");
    let body = CreateNoteSchema {
        title: String::from("t"),
        content: String::from("c"),
        category: Some(String::from("work")),
        published: None,
    };
    assert_eq!(body.insert_values().category, "work");
}

#[test]
fn param_options_hold_the_id() {
    let p = ParamOptions { id: 7 };
    assert_eq!(p.id, 7);
}
