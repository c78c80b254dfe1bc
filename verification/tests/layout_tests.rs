use rss_tui::layout::{centered_rect, Area};

#[test]
fn prompt_box_is_centred() {
    let r = centered_rect(60, 20, Area { x: 0, y: 0, width: 100, height: 50 });
    assert_eq!(r, Area { x: 20, y: 20, width: 60, height: 10 });
}

#[test]
fn full_box_covers_the_area() {
    let r = centered_rect(100, 100, Area { x: 3, y: 4, width: 40, height: 20 });
    assert_eq!(r, Area { x: 3, y: 4, width: 40, height: 20 });
}
