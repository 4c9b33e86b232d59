use nhl_input::ocr::{
    all_text_of, luminance_probe, ocr_result, parse_tsv_lines, selected_line_text, tsv_fits,
    NullObserver, OcrLine, OcrRect,
};

const HEADER: &str = "level\tpage_num\tblock_num\tpar_num\tline_num\tword_num\tleft\ttop\twidth\theight\tconf\ttext";

fn rect(left: i32, top: i32, right: i32, bottom: i32) -> OcrRect {
    OcrRect { left, top, right, bottom }
}

fn sample() -> String {
    [
        HEADER,
        "1\t1\t0\t0\t0\t0\t0\t0\t640\t480\t-1\t",
        "4\t1\t1\t1\t1\t0\t10\t18\t80\t14\t-1\t",
        "5\t1\t1\t1\t1\t1\t10\t20\t30\t10\t96.5\tPLAY",
        "5\t1\t1\t1\t1\t2\t50\t18\t40\t14\t95.0\tNOW",
        "5\t1\t1\t1\t2\t1\t10\t40\t60\t10\t91.0\tSETTINGS",
        "",
    ]
    .join("\n")
}

#[test]
fn center_of_rect() {
    assert_eq!(rect(10, 20, 30, 41).center(), (20, 30));
    // Division rounds towards zero.
    assert_eq!(rect(-5, -5, 2, 0).center(), (-1, -2));
    assert!(rect(i32::MAX, 0, 1, 0).center_fits() == false);
    assert!(rect(1, 2, 3, 4).center_fits());
}

#[test]
fn tsv_words_group_into_lines() {
    let tsv = sample();
    assert!(tsv_fits(&tsv));
    let lines = parse_tsv_lines(&tsv);
    assert_eq!(lines.len(), 2);
    assert_eq!(lines[0].text, "PLAY NOW");
    assert_eq!(lines[0].rect, rect(10, 18, 90, 32));
    assert_eq!(lines[0].words.len(), 2);
    assert_eq!(lines[0].words[1].text, "NOW");
    assert_eq!(lines[0].words[1].rect, rect(50, 18, 90, 32));
    assert_eq!(lines[1].text, "SETTINGS");
    assert_eq!(lines[1].rect, rect(10, 40, 70, 50));
    assert_eq!(all_text_of(&lines), "PLAY NOW\nSETTINGS");
}

#[test]
fn tsv_text_keeps_later_fields_and_skips_blank_words() {
    let tsv = [
        HEADER,
        "5\t1\t1\t1\t1\t1\t0\t0\t5\t5\t90\tA\tB",
        "5\t1\t1\t1\t1\t2\t9\t0\t5\t5\t90\t   ",
        "5\t1\t1\t1\t3\t1\t0\t9\t5\t5\t90\tC\r",
        "5\tx\ty\tz\tw\t1\tq\t9\t5\t5\t90\tD",
        "six\t1\t1\t1\t3\t1\t0\t9\t5\t5\t90\tE",
        "5\t1\t1",
    ]
    .join("\r\n");
    let lines = parse_tsv_lines(&tsv);
    assert_eq!(lines.len(), 3);
    assert_eq!(lines[0].text, "A\tB");
    assert_eq!(lines[1].text, "C");
    // Unreadable numbers count as zero.
    assert_eq!(lines[2].text, "D");
    assert_eq!(lines[2].rect, rect(0, 9, 5, 14));
}

#[test]
fn tsv_without_rows() {
    assert!(parse_tsv_lines("").is_empty());
    assert!(parse_tsv_lines(HEADER).is_empty());
    assert_eq!(all_text_of(&Vec::new()), "");
}

#[test]
fn tsv_fit_check() {
    let tsv = format!("{HEADER}\n5\t1\t1\t1\t1\t1\t2147483647\t0\t1\t1\t90\tX");
    assert!(!tsv_fits(&tsv));
    let blank = format!("{HEADER}\n5\t1\t1\t1\t1\t1\t2147483647\t0\t1\t1\t90\t ");
    assert!(tsv_fits(&blank));
}

#[test]
fn result_and_selection() {
    let lines = parse_tsv_lines(&sample());
    assert_eq!(selected_line_text(&lines, Some(1)), Some("SETTINGS".to_string()));
    assert_eq!(selected_line_text(&lines, Some(2)), None);
    assert_eq!(selected_line_text(&lines, None), None);
    let r = ocr_result(lines, Some(0));
    assert_eq!(r.all_text, "PLAY NOW\nSETTINGS");
    assert_eq!(r.selected_index, Some(0));
    assert_eq!(r.lines.len(), 2);
}

#[test]
fn probe_inside_image_only() {
    assert_eq!(luminance_probe(&rect(10, 18, 90, 32), 640, 480), Some((50, 25)));
    assert_eq!(luminance_probe(&rect(10, 18, 90, 32), 50, 480), None);
    assert_eq!(luminance_probe(&rect(-90, 18, 10, 32), 640, 480), None);
}

#[test]
fn null_observer_sees_nothing() {
    let o = NullObserver;
    assert!(o.is_connected());
    assert!(o.pixel_at(3, 4).is_none());
    let _unused: Vec<OcrLine> = Vec::new();
}

#[test]
fn parsed_line_boxes_bound_their_words() {
    for line in parse_tsv_lines(&sample()) {
        assert!(!line.words.is_empty());
        let texts: Vec<&str> = line.words.iter().map(|w| w.text.as_str()).collect();
        assert_eq!(line.text, texts.join(" "));
        for w in &line.words {
            assert!(line.rect.left <= w.rect.left && line.rect.top <= w.rect.top);
            assert!(w.rect.right <= line.rect.right && w.rect.bottom <= line.rect.bottom);
        }
        assert!(line.words.iter().any(|w| w.rect.left == line.rect.left));
        assert!(line.words.iter().any(|w| w.rect.bottom == line.rect.bottom));
    }
}
