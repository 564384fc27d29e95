use torii::memory::{
    jemalloc_stats, mib, report_step, resident_set_bytes, split_whitespace, stats_of, JemallocStats,
    MemoryLine,
};

#[test]
fn mib_rounds_down() {
    assert_eq!(mib(0), 0);
    assert_eq!(mib(1024 * 1024 - 1), 0);
    assert_eq!(mib(3 * 1024 * 1024 + 5), 3);
}

#[test]
fn jemalloc_stats_are_readable_and_consistent() {
    let stats = jemalloc_stats().expect("jemalloc stats should be readable");
    assert!(stats.allocated > 0);
    assert!(stats.active >= stats.allocated);
    assert!(stats.resident >= stats.active);
    assert!(stats.mapped >= stats.active);
}

#[test]
fn numbers_of_the_allocator_keep_their_order() {
    assert_eq!(stats_of(None), None);
    let s = stats_of(Some([1, 2, 3, 4, 5, 6])).unwrap();
    assert_eq!(s.allocated, 1);
    assert_eq!(s.active, 2);
    assert_eq!(s.resident, 3);
    assert_eq!(s.mapped, 4);
    assert_eq!(s.retained, 5);
    assert_eq!(s.metadata, 6);
    assert_eq!(JemallocStats::default().allocated, 0);
}

#[test]
fn resident_pages_are_the_second_word() {
    assert_eq!(resident_set_bytes("1000 25 300 4 0 5 0\n", 4096), Some(25 * 4096));
    assert_eq!(resident_set_bytes("1000 25", 0), Some(25 * 4096));
    assert_eq!(resident_set_bytes("1000 25", -1), Some(25 * 4096));
    assert_eq!(resident_set_bytes("1000 25", 16384), Some(25 * 16384));
    assert_eq!(resident_set_bytes("1000", 4096), None);
    assert_eq!(resident_set_bytes("1000 x 3", 4096), None);
    assert_eq!(resident_set_bytes("", 4096), None);
    assert_eq!(split_whitespace(" a\t b\n"), vec!["a".to_string(), "b".to_string()]);
}

#[test]
fn every_twentieth_sample_is_summed_up() {
    assert_eq!(report_step(0, true, true), (MemoryLine::Summary, 1));
    assert_eq!(report_step(1, true, true), (MemoryLine::Brief, 2));
    assert_eq!(report_step(20, true, false), (MemoryLine::Summary, 21));
    assert_eq!(report_step(40, false, true), (MemoryLine::Resident, 41));
    assert_eq!(report_step(41, false, true), (MemoryLine::Nothing, 42));
    assert_eq!(report_step(40, false, false), (MemoryLine::Nothing, 41));
    assert_eq!(report_step(u32::MAX, true, true).1, 0);
}
