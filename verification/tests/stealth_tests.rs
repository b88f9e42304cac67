use ssbu_online_deluxe::stealth::{
    find_beacon_site, scan_word_count, MemoryInfo, PatchReport, PatchState, StealthPatcher,
    TAG_CONST_MOVZ, TAG_CONST_MOVZ_ZERO,
};

const STORE_X19: u32 = 0x381A_C008 | (19 << 5);
const NOP: u32 = 0xd503_201f;

#[test]
fn finds_constant_with_store_behind_it() {
    let words = [NOP, TAG_CONST_MOVZ, NOP, STORE_X19, NOP];
    assert_eq!(find_beacon_site(0x1000, &words), Some(0x1004));
}

#[test]
fn store_must_be_within_six_words() {
    let mut words = vec![TAG_CONST_MOVZ];
    words.extend([NOP; 6]);
    words.push(STORE_X19);
    assert_eq!(find_beacon_site(0, &words), None);
    let mut words = vec![TAG_CONST_MOVZ];
    words.extend([NOP; 5]);
    words.push(STORE_X19);
    assert_eq!(find_beacon_site(0, &words), Some(0));
}

#[test]
fn constant_without_store_is_skipped() {
    let words = [TAG_CONST_MOVZ, NOP, NOP, NOP, NOP, NOP, NOP, NOP, TAG_CONST_MOVZ, STORE_X19];
    assert_eq!(find_beacon_site(0x100, &words), Some(0x100 + 4 * 8));
    assert_eq!(find_beacon_site(0x100, &[TAG_CONST_MOVZ]), None);
    assert_eq!(find_beacon_site(0x100, &[]), None);
}

#[test]
fn scan_window_checks() {
    let ok = MemoryInfo { base_address: 0, size: 0x1000, mem_type: 3, attribute: 0, perm: 5, device_refcount: 0, ipc_refcount: 0 };
    assert_eq!(scan_word_count(&ok), Some(0x400));
    assert_eq!(scan_word_count(&MemoryInfo { perm: 4, ..ok }), None);
    assert_eq!(scan_word_count(&MemoryInfo { size: 0, ..ok }), None);
    assert_eq!(scan_word_count(&MemoryInfo { size: 0x20_0001, ..ok }), None);
    assert_eq!(scan_word_count(&MemoryInfo { size: 0x20_0000, ..ok }), Some(0x8_0000));
}

#[test]
fn patcher_is_one_shot() {
    let mut p = StealthPatcher::new();
    assert!(!p.should_scan());
    p.arm(false);
    assert_eq!(p.state, PatchState::Idle);
    assert_eq!(p.scan_target(Some(0x10)), None);
    p.arm(true);
    assert!(p.should_scan());
    assert_eq!(p.scan_target(None), None);
    assert_eq!(p.scan_target(Some(0x10)), Some(0x10));
    assert_eq!(p.settle(Some(0x40), Some(TAG_CONST_MOVZ_ZERO)), PatchReport::Suppressed(0x40));
    assert!(!p.should_scan());
    assert_eq!(p.state, PatchState::Settled);
}

#[test]
fn patch_reports() {
    let mut p = StealthPatcher::new();
    assert_eq!(p.settle(Some(8), None), PatchReport::PatchFailed(8));
    assert_eq!(p.settle(Some(8), Some(TAG_CONST_MOVZ)), PatchReport::PatchFailed(8));
    assert_eq!(p.settle(None, None), PatchReport::SignatureNotFound);
}
