use packler::config::PacklerConfig;
use packler::fingerprint::{fingerprint, hash_to_hex};
use packler::pipelines::assets::images::{
    copy_job, keep_copied, process, record, CopyJob, EntryContent, ImageEntry,
};
use packler::pipelines::assets::{AssetMetadata, Error};

fn config() -> PacklerConfig {
    PacklerConfig::with_target("target".to_string())
}

fn file(path: &str, content: &[u8]) -> ImageEntry {
    ImageEntry { path: path.to_string(), content: EntryContent::File(content.to_vec()) }
}

fn image(name: &str, hash: u64) -> AssetMetadata {
    record(&config(), &format!("assets/images/{name}"), hash).unwrap()
}

#[test]
fn logo_record() {
    let metadata = record(&config(), "assets/images/logo.png", 0x1a2b3c4d5e6f7890).unwrap();
    assert_eq!(
        metadata,
        AssetMetadata {
            source_path: "assets/images/logo.png".to_string(),
            logical_path: "images/logo.png".to_string(),
            processed_relative_path: "images/logo-1a2b3c4d5e6f7890.png".to_string(),
            hash: 0x1a2b3c4d5e6f7890,
        }
    );
}

#[test]
fn record_outside_of_assets_is_refused() {
    assert_eq!(
        record(&config(), "elsewhere/logo.png", 1),
        Err(Error::NotUnderRoot("elsewhere/logo.png".to_string()))
    );
    assert_eq!(
        record(&config(), "assets-old/logo.png", 1),
        Err(Error::NotUnderRoot("assets-old/logo.png".to_string()))
    );
}

#[test]
fn processed_path_holds_hash_of_content() {
    let content = b"\x89PNG\r\n\x1a\n not really an image";
    let plan = process(&config(), vec![file("assets/images/icons/star.png", content)]);
    assert_eq!(plan.images.len(), 1);
    let expected = format!("images/icons/star-{}.png", hash_to_hex(seahash::hash(content)));
    assert_eq!(plan.images[0].processed_relative_path, expected);
    assert_eq!(plan.images[0].logical_path, "images/icons/star.png");
    assert_eq!(plan.images[0].source_path, "assets/images/icons/star.png");
    assert_eq!(plan.images[0].hash, fingerprint(content));
}

#[test]
fn unchanged_content_gives_same_records() {
    let entries = || {
        vec![
            file("assets/images/a.png", b"first"),
            file("assets/images/sub/b.jpg", b"second"),
        ]
    };
    let once = process(&config(), entries());
    let again = process(&config(), entries());
    assert_eq!(once, again);
}

#[test]
fn changed_content_gives_new_path() {
    let old = process(&config(), vec![file("assets/images/a.png", b"first")]);
    let new = process(&config(), vec![file("assets/images/a.png", b"first!")]);
    assert_eq!(old.images[0].logical_path, new.images[0].logical_path);
    assert_ne!(old.images[0].processed_relative_path, new.images[0].processed_relative_path);
}

#[test]
fn only_readable_files_are_recorded() {
    let entries = vec![
        ImageEntry { path: "assets/images".to_string(), content: EntryContent::NotAFile },
        file("assets/images/a.png", b"a"),
        ImageEntry { path: String::new(), content: EntryContent::Unreadable("denied".to_string()) },
        ImageEntry { path: "assets/images/sub".to_string(), content: EntryContent::NotAFile },
        file("assets/images/sub/b.png", b"b"),
        file("outside/c.png", b"c"),
    ];
    let plan = process(&config(), entries);
    let logical: Vec<&str> = plan.images.iter().map(|m| m.logical_path.as_str()).collect();
    assert_eq!(logical, vec!["images/a.png", "images/sub/b.png"]);
}

#[test]
fn plan_cleans_and_copies() {
    let plan = process(
        &config(),
        vec![file("assets/images/a.png", b"a"), file("assets/images/sub/b.png", b"b")],
    );
    assert_eq!(plan.clean, "dist/images");
    assert_eq!(plan.copies.len(), 2);
    assert_eq!(
        plan.copies[0],
        CopyJob {
            from: "assets/images/a.png".to_string(),
            to: format!("dist/images/a-{}.png", hash_to_hex(seahash::hash(b"a"))),
        }
    );
    assert_eq!(plan.copies[1].from, "assets/images/sub/b.png");
    assert_eq!(plan.copies[1].to, format!("dist/{}", plan.images[1].processed_relative_path));
    assert_eq!(plan.copies[1], copy_job(&config(), &plan.images[1]));
}

#[test]
fn empty_walk_gives_empty_plan() {
    let plan = process(&config(), Vec::new());
    assert!(plan.images.is_empty());
    assert!(plan.copies.is_empty());
    assert_eq!(plan.clean, "dist/images");
}

#[test]
fn failed_copy_drops_that_image_only() {
    let images = vec![image("a.png", 1), image("b.png", 2), image("c.png", 3)];
    let outcomes = vec![Ok(()), Err("disk full".to_string()), Ok(())];
    let kept = keep_copied(images.clone(), &outcomes);
    assert_eq!(kept, vec![images[0].clone(), images[2].clone()]);
}

#[test]
fn all_copies_failing_gives_empty_result() {
    let images = vec![image("a.png", 1), image("b.png", 2)];
    let outcomes = vec![Err("x".to_string()), Err("y".to_string())];
    assert_eq!(keep_copied(images, &outcomes), Vec::new());
}

#[test]
fn image_without_outcome_is_not_kept() {
    let images = vec![image("a.png", 1), image("b.png", 2)];
    assert_eq!(keep_copied(images.clone(), &vec![Ok(())]), vec![images[0].clone()]);
    assert_eq!(keep_copied(images, &Vec::new()), Vec::new());
}

#[test]
fn repeated_separators_give_relative_paths() {
    let metadata = record(&config(), "assets//images/x.png", 1).unwrap();
    assert_eq!(metadata.logical_path, "images/x.png");
    assert_eq!(metadata.processed_relative_path, "images/x-0000000000000001.png");
    assert_eq!(copy_job(&config(), &metadata).to, "dist/images/x-0000000000000001.png");
    let mut rooted = config();
    rooted.assets_source_dir = "assets/".to_string();
    let metadata = record(&rooted, "assets//images//x.png", 1).unwrap();
    assert_eq!(metadata.logical_path, "images/x.png");
}

#[test]
fn record_is_never_absolute() {
    let mut unrooted = config();
    unrooted.assets_source_dir = String::new();
    assert_eq!(
        record(&unrooted, "/etc/x.png", 1),
        Err(Error::NotUnderRoot("/etc/x.png".to_string()))
    );
    assert_eq!(record(&unrooted, "images/x.png", 1).unwrap().logical_path, "images/x.png");
}

#[test]
fn walk_counts_what_was_meant_to_be_an_image() {
    let entries = vec![
        ImageEntry { path: "assets/images".to_string(), content: EntryContent::NotAFile },
        file("assets/images/a.png", b"a"),
        ImageEntry { path: String::new(), content: EntryContent::Unreadable("denied".to_string()) },
        file("outside/c.png", b"c"),
    ];
    let plan = process(&config(), entries);
    assert_eq!(plan.found, 3);
    assert_eq!(plan.images.len(), 1);
    assert_eq!(process(&config(), Vec::new()).found, 0);
}
