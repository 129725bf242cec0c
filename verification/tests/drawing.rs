use screentime_pro::hit_mask::{HitMask, PetHitState, WatchStep};
use screentime_pro::tray_icon::{glyph, render_tray_icon};

#[test]
fn glyphs() {
    assert_eq!(glyph('0'), Some([0x0E, 0x11, 0x11, 0x11, 0x11, 0x11, 0x0E]));
    assert_eq!(glyph('↓'), Some([0x04, 0x04, 0x04, 0x04, 0x04, 0x0E, 0x1F]));
    assert_eq!(glyph('x'), None);
}

#[test]
fn tray_icon_pixels() {
    let buf = render_tray_icon(&["1"]);
    assert_eq!(buf.len(), 32 * 32 * 4);
    // background at the corner
    assert_eq!(&buf[0..4], &[0x1E, 0x29, 0x3B, 0xFF]);
    // '1' top row is 0x04 -> pixel column 2 of the glyph; line starts at x0 = 11, y = 1
    let px = |x: usize, y: usize| &buf[(y * 32 + x) * 4..(y * 32 + x) * 4 + 4];
    assert_eq!(px(11 + 4, 1), &[0xFF, 0xFF, 0xFF, 0xFF]);
    assert_eq!(px(11 + 5, 2), &[0xFF, 0xFF, 0xFF, 0xFF]);
    assert_eq!(px(11, 1), &[0x1E, 0x29, 0x3B, 0xFF]);
    // nothing is drawn for an overlong line
    let blank = render_tray_icon(&["1234"]);
    assert!(blank.chunks(4).all(|p| p == [0x1E, 0x29, 0x3B, 0xFF]));
    let two = render_tray_icon(&["C", "", "9"]);
    assert_eq!(two.len(), 4096);
}

#[test]
fn hit_mask_validation_and_lookup() {
    assert_eq!(
        HitMask::new(2, 2, vec![0, 1, 0]).err(),
        Some("掩码尺寸不合法: cols=2 rows=2 len=3".to_string())
    );
    assert!(HitMask::new(0, 2, vec![]).is_err());
    let m = HitMask::new(2, 2, vec![0, 1, 0, 0]).unwrap();
    assert!(m.any_hit && m.usable());
    assert!(m.body_at(1, 0));
    assert!(m.body_at(5, -3));
    assert!(!m.body_at(0, 1));
    let empty = HitMask::new(1, 1, vec![0]).unwrap();
    assert!(!empty.usable());
}

#[test]
fn watcher_steps() {
    let mut st = PetHitState::default();
    assert_eq!(st.watch_step(true, 0, 0), WatchStep::Keep);
    st.mask = Some(HitMask::new(2, 1, vec![1, 0]).unwrap());
    assert_eq!(st.watch_step(true, 0, 0), WatchStep::Keep);
    assert_eq!(st.watch_step(true, 1, 0), WatchStep::Apply(true));
    assert_eq!(st.watch_step(false, 0, 0), WatchStep::Apply(true));
    st.applied_passthrough = true;
    assert_eq!(st.watch_step(true, 0, 0), WatchStep::Apply(false));
    st.dragging = true;
    assert_eq!(st.watch_step(true, 0, 0), WatchStep::Keep);
}
