use syntax_launcher::fetch::{
    asset_manifest, check_manifest, extraction_job, get_location_from_file_name, join_outcomes,
    plan_fetch, AssetEntry, Download, JobError,
};

fn path(parts: &[&str]) -> Vec<String> {
    parts.iter().map(|s| s.to_string()).collect()
}

fn asset(name: &str, sub: &[&str]) -> AssetEntry {
    AssetEntry { remote_name: name.to_string(), local_subpath: path(sub) }
}

#[test]
fn built_in_manifest_is_one_to_one() {
    let m = asset_manifest();
    assert_eq!(m.len(), 14);
    assert!(check_manifest(&m));
}

#[test]
fn manifest_check_finds_duplicates() {
    assert!(!check_manifest(&vec![asset("a", &["dirA"]), asset("a", &["dirB"])]));
    assert!(!check_manifest(&vec![asset("a", &["dir"]), asset("b", &["dir"])]));
    assert!(check_manifest(&vec![asset("a", &["dirA"]), asset("b", &["dirB"])]));
    assert!(check_manifest(&Vec::new()));
}

#[test]
fn location_lookup() {
    let m = asset_manifest();
    assert_eq!(get_location_from_file_name(&m, "content-fonts.zip"), Some(path(&["content", "fonts"])));
    assert_eq!(get_location_from_file_name(&m, "SyntaxApp.zip"), Some(Vec::new()));
    assert_eq!(get_location_from_file_name(&m, "missing.zip"), None);
}

#[test]
fn extraction_job_for_named_asset() {
    let m = asset_manifest();
    let job = extraction_job(&m, "ssl.zip", "https://setup.example.com/v1-", &path(&["/r", "v1"])).unwrap();
    assert_eq!(job.url, "https://setup.example.com/v1-ssl.zip");
    assert_eq!(job.dest, path(&["/r", "v1", "ssl"]));
    assert_eq!(job.remote_name, "ssl.zip");
    assert!(extraction_job(&m, "nope.zip", "p-", &path(&["/r"])).is_none());
}

#[test]
fn two_jobs_write_to_their_own_directories() {
    let m = vec![asset("a", &["dirA"]), asset("b", &["dirB"])];
    let jobs = plan_fetch(&m, "https://h/v-", &path(&["root"]));
    assert_eq!(jobs.len(), 2);
    assert_eq!(jobs[0].url, "https://h/v-a");
    assert_eq!(jobs[0].dest, path(&["root", "dirA"]));
    assert_eq!(jobs[1].url, "https://h/v-b");
    assert_eq!(jobs[1].dest, path(&["root", "dirB"]));
}

#[test]
fn run_succeeds_only_when_every_job_does() {
    assert!(join_outcomes(vec![Ok(()), Ok(())]).is_ok());
    assert!(join_outcomes(Vec::new()).is_ok());
    let r = join_outcomes(vec![
        Ok(()),
        Err(JobError::Network("a".to_string())),
        Ok(()),
        Err(JobError::CorruptArchive("b".to_string())),
    ]);
    match r {
        Err(es) => {
            assert_eq!(es.len(), 2);
            assert!(matches!(&es[0], JobError::Network(s) if s == "a"));
            assert!(matches!(&es[1], JobError::CorruptArchive(s) if s == "b"));
        }
        Ok(()) => panic!("a failed job must fail the run"),
    }
    let r = join_outcomes(vec![Err(JobError::Filesystem("f".to_string())), Err(JobError::ManifestMismatch("m".to_string()))]);
    assert!(matches!(r, Err(es) if es.len() == 2));
}

#[test]
fn download_progress_is_capped_by_content_length() {
    let mut d = Download::start(Some(5));
    d.push_chunk(&[1, 2, 3]);
    assert_eq!(d.position, 3);
    d.push_chunk(&[4, 5, 6]);
    assert_eq!(d.position, 5);
    assert_eq!(d.bytes, vec![1, 2, 3, 4, 5, 6]);
}

#[test]
fn download_progress_without_length_counts_bytes() {
    let mut d = Download::start(None);
    d.push_chunk(&[9; 10]);
    d.push_chunk(&[]);
    d.push_chunk(&[7; 4]);
    assert_eq!(d.position, 14);
    assert_eq!(d.bytes.len(), 14);
    assert_eq!(d.total, None);
}
