use leon::firmware::fmt_buf;
use leon::screen::glyph;

#[test]
fn unmapped_characters_draw_the_question_mark_glyph() {
    let q = [0x0E, 0x11, 0x01, 0x02, 0x04, 0x00, 0x04];
    assert_eq!(glyph('Z'), Some(q));
    assert_eq!(glyph('?'), Some(q));
    assert_eq!(glyph('L'), Some([0x10, 0x10, 0x10, 0x10, 0x10, 0x10, 0x1F]));
}

#[test]
fn formatted_text_is_cut_at_a_piece_boundary() {
    assert_eq!(fmt_buf(64, &["LEON ", "OK"]), "LEON OK");
    assert_eq!(fmt_buf(6, &["LEON ", "OK"]), "LEON ");
    assert_eq!(fmt_buf(7, &["LEON ", "OK"]), "LEON OK");
    assert_eq!(fmt_buf(3, &["LEON ", "OK"]), "");
}
