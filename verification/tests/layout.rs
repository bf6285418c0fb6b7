use diskanalyzer::layout::{centered_rect, Area};

fn boundary(start: u32, length: u32, percent: u32) -> u32 {
    start + (length * percent + 50) / 100
}

fn check(width_percent: u16, height_percent: u16, area: Area) {
    let middle = centered_rect(width_percent, height_percent, area);
    let before = ((100 - width_percent) / 2) as u32;
    let above = ((100 - height_percent) / 2) as u32;
    let ends = [
        middle.x as u32,
        middle.x as u32 + middle.width as u32,
        middle.y as u32,
        middle.y as u32 + middle.height as u32,
    ];
    let expected = [
        boundary(area.x as u32, area.width as u32, before),
        boundary(area.x as u32, area.width as u32, before + width_percent as u32),
        boundary(area.y as u32, area.height as u32, above),
        boundary(area.y as u32, area.height as u32, above + height_percent as u32),
    ];
    assert_eq!(ends, expected, "{width_percent} {height_percent} {area:?}");
}

#[test]
fn the_middle_lies_in_the_middle() {
    let area = Area { x: 0, y: 0, width: 80, height: 24 };
    assert_eq!(centered_rect(64, 30, area), Area { x: 14, y: 8, width: 52, height: 8 });
    assert_eq!(centered_rect(100, 100, area), area);
    assert_eq!(centered_rect(0, 0, area), Area { x: 40, y: 12, width: 0, height: 0 });
}

#[test]
fn every_percentage_of_every_small_length_is_rounded() {
    for percent in 0..=100 {
        for length in 0..40 {
            check(percent, 100 - percent, Area { x: length % 3, y: 5, width: length, height: 40 - length });
        }
    }
}

#[test]
fn the_question_lies_in_the_middle_of_every_screen() {
    for width in 0..300 {
        check(64, 30, Area { x: 0, y: 0, width, height: width / 3 });
    }
}

#[test]
fn large_and_distant_areas_are_divided_too() {
    for percent in [1, 7, 33, 50, 51, 64, 99] {
        for (x, width) in [(0, 65535), (1, 65534), (65535, 0), (30000, 12345), (65000, 535), (3, 999)] {
            check(percent, 101 - percent, Area { x, y: x, width, height: width });
        }
    }
}
