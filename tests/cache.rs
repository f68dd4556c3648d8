use zstd_tool::cache::{is_materialized, plan_materialization, CacheFile, CacheStatus, CacheStep};

fn apply(mut s: CacheStatus, steps: &[CacheStep]) -> CacheStatus {
    for step in steps {
        let f = match step {
            CacheStep::Extract(f) => *f,
            CacheStep::Link { alias, .. } => *alias,
        };
        match f {
            CacheFile::Dwarfs => s.dwarfs = true,
            CacheFile::Winfsp => s.winfsp = true,
            CacheFile::MkDwarfs => s.mkdwarfs = true,
            CacheFile::DwarfsExtract => s.dwarfsextract = true,
        }
    }
    s
}

const EMPTY: CacheStatus = CacheStatus { dwarfs: false, winfsp: false, mkdwarfs: false, dwarfsextract: false };

#[test]
fn first_run_extracts_then_links() {
    let plan = plan_materialization(EMPTY);
    assert_eq!(
        plan,
        vec![
            CacheStep::Extract(CacheFile::Dwarfs),
            CacheStep::Extract(CacheFile::Winfsp),
            CacheStep::Link { alias: CacheFile::MkDwarfs, primary: CacheFile::Dwarfs },
            CacheStep::Link { alias: CacheFile::DwarfsExtract, primary: CacheFile::Dwarfs },
        ]
    );
}

#[test]
fn second_run_is_a_no_op() {
    let first = plan_materialization(EMPTY);
    let after = apply(EMPTY, &first);
    assert!(is_materialized(after));
    assert!(plan_materialization(after).is_empty());
    let extracts = first.iter().filter(|s| matches!(s, CacheStep::Extract(_))).count();
    assert_eq!(extracts, 2);
}

#[test]
fn only_missing_files_are_made() {
    let s = CacheStatus { dwarfs: true, winfsp: false, mkdwarfs: true, dwarfsextract: false };
    assert!(!is_materialized(s));
    assert_eq!(
        plan_materialization(s),
        vec![
            CacheStep::Extract(CacheFile::Winfsp),
            CacheStep::Link { alias: CacheFile::DwarfsExtract, primary: CacheFile::Dwarfs },
        ]
    );
}

#[test]
fn cache_file_names() {
    assert_eq!(CacheFile::Dwarfs.file_name(), "dwarfs.exe");
    assert_eq!(CacheFile::Winfsp.file_name(), "winfsp-x64.dll");
    assert_eq!(CacheFile::MkDwarfs.file_name(), "mkdwarfs.exe");
    assert_eq!(CacheFile::DwarfsExtract.file_name(), "dwarfsextract.exe");
}
