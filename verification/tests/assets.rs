use lemoncraft::asset_source::{
    merge_read_dir, read_order, read_step, EntryFilter, ReadOutcome, ReadStep, SourceError, SourceId,
};

fn not_found(tag: u8) -> Result<(), SourceError<u8>> {
    Err(SourceError { not_found: true, error: tag })
}

fn failed(tag: u8) -> Result<(), SourceError<u8>> {
    Err(SourceError { not_found: false, error: tag })
}

fn tag(r: &Result<(), SourceError<u8>>) -> Option<u8> {
    r.as_ref().err().map(|e| e.error)
}

#[test]
fn pack_success_wins_over_missing_default() {
    assert!(merge_read_dir(not_found(1), Ok(())).is_ok());
    assert!(merge_read_dir(Ok(()), not_found(2)).is_ok());
    assert!(merge_read_dir(Ok(()), failed(2)).is_ok());
}

#[test]
fn a_real_default_failure_stands() {
    assert_eq!(tag(&merge_read_dir(failed(1), Ok(()))), Some(1));
    assert_eq!(tag(&merge_read_dir(failed(1), failed(2))), Some(1));
}

#[test]
fn when_everything_fails_the_newest_error_is_kept() {
    assert_eq!(tag(&merge_read_dir(not_found(1), failed(2))), Some(2));
    assert_eq!(tag(&merge_read_dir(not_found(1), not_found(3))), Some(3));
}

#[test]
fn entries_are_reported_once() {
    let mut f = EntryFilter::new();
    let mut reported = vec![];
    // The default directory, then two packs.
    let listing = [
        ("entity.shared", Some("ron")),
        ("entity.main_only", Some("ron")),
        ("entity.shared", Some("ron")),
        ("entity.pack1_only", Some("ron")),
        ("entity.shared", Some("ron")),
        ("entity.pack2_only", Some("ron")),
        ("entity.nest", None),
        ("entity.nest", None),
        ("entity.shared", None),
    ];
    for (path, ext) in listing {
        if f.first_sighting(path, ext) {
            reported.push(match ext {
                Some(e) => format!("{path}.{e}"),
                None => format!("{path}/"),
            });
        }
    }
    reported.sort();
    assert_eq!(
        reported,
        vec![
            "entity.main_only.ron".to_owned(),
            "entity.nest/".to_owned(),
            "entity.pack1_only.ron".to_owned(),
            "entity.pack2_only.ron".to_owned(),
            "entity.shared.ron".to_owned(),
            "entity.shared/".to_owned(),
        ]
    );
}

#[test]
fn packs_are_read_from_the_highest_priority_down() {
    assert_eq!(read_order(0), vec![SourceId::Default]);
    assert_eq!(read_order(2), vec![SourceId::Pack(1), SourceId::Pack(0), SourceId::Default]);
}

#[test]
fn the_first_decisive_source_settles_the_listing() {
    // Default missing, first pack broken, second pack fine: the broken pack
    // settles the listing.
    let mut last = not_found(0);
    for pack in [failed(1), Ok(())] {
        last = merge_read_dir(last, pack);
    }
    assert_eq!(tag(&last), Some(1));
    // Default missing, first pack fine, second pack broken: success stands.
    let mut last = not_found(0);
    for pack in [Ok(()), failed(2)] {
        last = merge_read_dir(last, pack);
    }
    assert!(last.is_ok());
    // Only "not found" everywhere: the last error is reported.
    let mut last = not_found(0);
    for pack in [not_found(1), not_found(2)] {
        last = merge_read_dir(last, pack);
    }
    assert_eq!(tag(&last), Some(2));
}

#[test]
fn lookups_stop_at_the_first_pack_with_the_file() {
    assert_eq!(read_step(SourceId::Pack(1), ReadOutcome::Found), ReadStep::Serve);
    assert_eq!(read_step(SourceId::Pack(1), ReadOutcome::NotFound), ReadStep::TryNext { warn: false });
    assert_eq!(read_step(SourceId::Pack(0), ReadOutcome::Failed), ReadStep::TryNext { warn: true });
    assert_eq!(read_step(SourceId::Default, ReadOutcome::NotFound), ReadStep::Serve);
    // Pack 1 lacks the file, pack 0 has it: pack 0 serves.
    let outcomes = [ReadOutcome::Found, ReadOutcome::NotFound];
    let served = read_order(2)
        .into_iter()
        .find(|s| {
            let o = match s {
                SourceId::Pack(i) => outcomes[*i],
                SourceId::Default => ReadOutcome::NotFound,
            };
            read_step(*s, o) == ReadStep::Serve
        })
        .unwrap();
    assert_eq!(served, SourceId::Pack(0));
}
