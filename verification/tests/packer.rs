use pxl::resources::{
    extension_kind, identifier_for, split_name, valid_stem, DecodedImage, Entry, EntryData,
    Error, Item, Module, Resource, ResourceKind,
};

fn blob_entry(name: &str, contents: &[u8]) -> Entry {
    Entry {
        name: name.to_string(),
        data: EntryData::File { bytes: contents.to_vec(), image: None },
    }
}

#[test]
fn lib_blob() {
    // a blob resource exposes the file's bytes unchanged
    let module = Module::from_entries(vec![blob_entry("abcd.blob", b"abcd\n")]).unwrap();
    let k = module.find("ABCD").unwrap();
    match &module.items[k].1 {
        Item::Resource { resource: Resource::Blob { bytes } } => {
            assert_eq!(bytes, b"abcd\n");
        }
        other => panic!("expected a blob resource, found {:?}", other),
    }
}

#[test]
fn empty() {
    let module = Module::from_entries(Vec::new()).unwrap();
    assert!(module.items.is_empty());
}

#[test]
fn module_blob() {
    let module = Module::from_entries(vec![blob_entry("file.blob", b"hello")]).unwrap();
    assert_eq!(module.items.len(), 1);
    assert_eq!(
        module.items[0],
        (
            "FILE".to_string(),
            Item::Resource { resource: Resource::Blob { bytes: b"hello".to_vec() } },
        )
    );
}

#[test]
fn submodule() {
    let child = Module::from_entries(vec![blob_entry("file.blob", b"hello")]).unwrap();
    let module = Module::from_entries(vec![Entry {
        name: "sub".to_string(),
        data: EntryData::Directory { module: child },
    }])
    .unwrap();
    assert_eq!(module.items.len(), 1);
    let k = module.find("sub").unwrap();
    if let Item::Module { module: ref inner } = module.items[k].1 {
        assert_eq!(inner.items.len(), 1);
        assert_eq!(
            inner.items[0],
            (
                "FILE".to_string(),
                Item::Resource { resource: Resource::Blob { bytes: b"hello".to_vec() } },
            )
        );
    } else {
        panic!("bad submodule");
    }
}

#[test]
fn image_entries_keep_their_decoded_pixels() {
    let module = Module::from_entries(vec![Entry {
        name: "player.png".to_string(),
        data: EntryData::File {
            bytes: vec![1, 2, 3],
            image: Some(DecodedImage { width: 1, height: 1, channels: vec![1, 2, 3, 4] }),
        },
    }])
    .unwrap();
    assert_eq!(
        module.items[0],
        (
            "PLAYER".to_string(),
            Item::Resource {
                resource: Resource::Image { width: 1, height: 1, channels: vec![1, 2, 3, 4] },
            },
        )
    );
}

#[test]
fn hidden_entries_are_skipped() {
    let module = Module::from_entries(vec![
        blob_entry(".hidden.blob", b"x"),
        blob_entry(".gitignore", b"y"),
        blob_entry("kept.blob", b"z"),
    ])
    .unwrap();
    assert_eq!(module.items.len(), 1);
    assert_eq!(module.items[0].0, "KEPT");
}

#[test]
fn invalid_stem_is_rejected() {
    let err = Module::from_entries(vec![blob_entry("9bad.blob", b"x")]).unwrap_err();
    assert_eq!(
        err,
        Error::FilenameNotValidRustIdentifier { path: "9bad.blob".to_string() }
    );
}

#[test]
fn conflicting_identifiers_are_rejected() {
    let err = Module::from_entries(vec![
        blob_entry("player.blob", b"x"),
        blob_entry("PLAYER.blob", b"y"),
    ])
    .unwrap_err();
    assert_eq!(
        err,
        Error::ConflictingIdentifiers {
            a: "player.blob".to_string(),
            b: "PLAYER.blob".to_string(),
            identifier: "PLAYER".to_string(),
        }
    );
}

#[test]
fn missing_extension_is_rejected() {
    let err = Module::from_entries(vec![blob_entry("file", b"x")]).unwrap_err();
    assert_eq!(err, Error::MissingExtension { path: "file".to_string() });
}

#[test]
fn unknown_extension_is_rejected() {
    let err = Module::from_entries(vec![blob_entry("file.txt", b"x")]).unwrap_err();
    assert_eq!(
        err,
        Error::UnsupportedExtension { path: "file.txt".to_string(), extension: "txt".to_string() }
    );
}

#[test]
fn directory_with_extension_is_rejected() {
    let child = Module::from_entries(Vec::new()).unwrap();
    let err = Module::from_entries(vec![Entry {
        name: "sub.blob".to_string(),
        data: EntryData::Directory { module: child },
    }])
    .unwrap_err();
    assert_eq!(
        err,
        Error::UnsupportedExtension { path: "sub.blob".to_string(), extension: "blob".to_string() }
    );
}

#[test]
fn undecodable_image_is_rejected() {
    let err = Module::from_entries(vec![Entry {
        name: "img.png".to_string(),
        data: EntryData::File { bytes: vec![0], image: None },
    }])
    .unwrap_err();
    assert_eq!(err, Error::ImageDecode { path: "img.png".to_string() });
}

#[test]
fn stems_validate_like_rust_identifiers() {
    assert!(valid_stem("player"));
    assert!(valid_stem("a-b_9"));
    assert!(!valid_stem(""));
    assert!(!valid_stem("9abc"));
    assert!(!valid_stem("a b"));
    assert!(!valid_stem("héllo"));
}

#[test]
fn identifiers_fold_case_and_dashes() {
    assert_eq!(identifier_for("file-name", true), "FILE_NAME");
    assert_eq!(identifier_for("Sub-Dir", false), "sub_dir");
    assert_eq!(identifier_for("a_b9", true), "A_B9");
}

#[test]
fn names_split_at_the_last_dot() {
    assert_eq!(split_name("file.blob"), ("file".to_string(), Some("blob".to_string())));
    assert_eq!(split_name("a.tar.gz"), ("a.tar".to_string(), Some("gz".to_string())));
    assert_eq!(split_name("plain"), ("plain".to_string(), None));
    assert_eq!(split_name(".hidden"), (".hidden".to_string(), None));
}

#[test]
fn extensions_classify_resources() {
    assert_eq!(extension_kind("blob"), Some(ResourceKind::Blob));
    assert_eq!(extension_kind("png"), Some(ResourceKind::Image));
    assert_eq!(extension_kind("jpg"), Some(ResourceKind::Image));
    assert_eq!(extension_kind("jpeg"), Some(ResourceKind::Image));
    assert_eq!(extension_kind("txt"), None);
}
