use demux2::address::{default_region, to_rusoto_region_with_endpoint, Rusoto};

fn descriptor(uri: &str, region: &str, endpoint: Option<&str>) -> Rusoto {
    Rusoto {
        uri: uri.to_string(),
        region: region.to_string(),
        endpoint: endpoint.map(|e| e.to_string()),
        access_key_id: None,
        secret_access_key: None,
        blocksize: None,
    }
}

fn unpack(address: &str) -> (Vec<u8>, Vec<u8>) {
    let authority = address
        .strip_prefix("s3://")
        .unwrap()
        .split('/')
        .next()
        .unwrap();
    let mut halves = authority.split('+');
    let region = halves.next().unwrap();
    let endpoint = halves.next().unwrap();
    assert!(halves.next().is_none());
    let alphabet = base32::Alphabet::RFC4648 { padding: false };
    (
        base32::decode(alphabet, region).unwrap(),
        base32::decode(alphabet, endpoint).unwrap(),
    )
}

#[test]
fn region_is_used_literally_without_endpoint() {
    let d = descriptor("s3://bucket/in.mp4", "us-west-2", None);
    assert_eq!(to_rusoto_region_with_endpoint(&d), "s3://us-west-2/bucket/in.mp4");
}

#[test]
fn region_and_endpoint_are_packed_in_base32() {
    let d = descriptor("s3://bucket/in.mp4", "us-west-2", Some("http://minio:9000"));
    assert_eq!(
        to_rusoto_region_with_endpoint(&d),
        "s3://OVZS253FON2C2MQ+NB2HI4B2F4XW22LONFXTUOJQGAYA/bucket/in.mp4"
    );
}

#[test]
fn packed_region_has_no_padding() {
    let d = descriptor("s3://b/k", "f", Some("fo"));
    assert_eq!(to_rusoto_region_with_endpoint(&d), "s3://MY+MZXQ/b/k");
    let d = descriptor("s3://b/k", "foo", Some("foob"));
    assert_eq!(to_rusoto_region_with_endpoint(&d), "s3://MZXW6+MZXW6YQ/b/k");
    let d = descriptor("s3://b/k", "fooba", Some("foobar"));
    assert_eq!(to_rusoto_region_with_endpoint(&d), "s3://MZXW6YTB+MZXW6YTBOI/b/k");
}

#[test]
fn empty_region_and_endpoint_pack_to_a_lone_separator() {
    let d = descriptor("s3://b/k", "", Some(""));
    assert_eq!(to_rusoto_region_with_endpoint(&d), "s3://+/b/k");
}

#[test]
fn uri_without_scheme_is_taken_as_the_path() {
    let d = descriptor("bucket/in.mp4", "eu-west-1", None);
    assert_eq!(to_rusoto_region_with_endpoint(&d), "s3://eu-west-1/bucket/in.mp4");
}

#[test]
fn only_a_leading_scheme_is_stripped() {
    let d = descriptor("s3://s3://bucket", "r", None);
    assert_eq!(to_rusoto_region_with_endpoint(&d), "s3://r/s3://bucket");
    let d = descriptor("x/s3://bucket", "r", None);
    assert_eq!(to_rusoto_region_with_endpoint(&d), "s3://r/x/s3://bucket");
}

#[test]
fn scheme_is_matched_exactly() {
    let d = descriptor("S3://bucket", "r", None);
    assert_eq!(to_rusoto_region_with_endpoint(&d), "s3://r/S3://bucket");
    let d = descriptor("s3:/bucket", "r", None);
    assert_eq!(to_rusoto_region_with_endpoint(&d), "s3://r/s3:/bucket");
    let d = descriptor("s3:", "r", None);
    assert_eq!(to_rusoto_region_with_endpoint(&d), "s3://r/s3:");
}

#[test]
fn bare_scheme_leaves_an_empty_path() {
    let d = descriptor("s3://", "r", None);
    assert_eq!(to_rusoto_region_with_endpoint(&d), "s3://r/");
    let d = descriptor("", "r", None);
    assert_eq!(to_rusoto_region_with_endpoint(&d), "s3://r/");
}

#[test]
fn characters_beyond_ascii_pass_through() {
    let d = descriptor("s3://bücket/vidéo.mp4", "région", None);
    assert_eq!(to_rusoto_region_with_endpoint(&d), "s3://région/bücket/vidéo.mp4");
}

#[test]
fn placeholder_survives_resolution() {
    let d = descriptor("s3://bucket/out-%u.mp4", "us-west-2", None);
    assert_eq!(to_rusoto_region_with_endpoint(&d), "s3://us-west-2/bucket/out-%u.mp4");
}

#[test]
fn resolving_twice_gives_the_same_address() {
    let d = descriptor("s3://bucket/in.mp4", "us-west-2", Some("http://minio:9000"));
    let first = to_rusoto_region_with_endpoint(&d);
    let second = to_rusoto_region_with_endpoint(&d);
    assert_eq!(first, second);
    let copy = descriptor("s3://bucket/in.mp4", "us-west-2", Some("http://minio:9000"));
    assert_eq!(first, to_rusoto_region_with_endpoint(&copy));
}

#[test]
fn credentials_and_block_size_do_not_change_the_address() {
    let plain = descriptor("s3://bucket/in.mp4", "us-west-2", Some("http://minio:9000"));
    let keyed = Rusoto {
        uri: "s3://bucket/in.mp4".to_string(),
        region: "us-west-2".to_string(),
        endpoint: Some("http://minio:9000".to_string()),
        access_key_id: Some("key".to_string()),
        secret_access_key: Some("hidden".to_string()),
        blocksize: Some(4096),
    };
    assert_eq!(
        to_rusoto_region_with_endpoint(&plain),
        to_rusoto_region_with_endpoint(&keyed)
    );
}

#[test]
fn packed_region_decodes_to_region_and_endpoint() {
    let d = descriptor("s3://bucket/in.mp4", "us-west-2", Some("http://minio:9000"));
    let (region, endpoint) = unpack(&to_rusoto_region_with_endpoint(&d));
    assert_eq!(region, b"us-west-2");
    assert_eq!(endpoint, b"http://minio:9000");
}

#[test]
fn packed_region_decodes_for_every_length_modulo_five() {
    let text = "abcdefghijk+é/%u";
    for end in 0..text.len() {
        if !text.is_char_boundary(end) {
            continue;
        }
        let region = &text[..end];
        let endpoint = &text[end..];
        let d = descriptor("s3://b/k", region, Some(endpoint));
        let (got_region, got_endpoint) = unpack(&to_rusoto_region_with_endpoint(&d));
        assert_eq!(got_region, region.as_bytes());
        assert_eq!(got_endpoint, endpoint.as_bytes());
    }
}

#[test]
fn encoding_agrees_with_the_crate_on_every_octet() {
    let alphabet = base32::Alphabet::RFC4648 { padding: false };
    for code in 0u32..0x250 {
        let c = match char::from_u32(code) {
            Some(c) => c,
            None => continue,
        };
        let region = format!("{}{}", c, c);
        let d = descriptor("k", &region, Some("e"));
        let expected = format!(
            "s3://{}+{}/k",
            base32::encode(alphabet, region.as_bytes()),
            base32::encode(alphabet, b"e")
        );
        assert_eq!(to_rusoto_region_with_endpoint(&d), expected);
    }
}

#[test]
fn default_region_prefers_the_configured_one() {
    assert_eq!(default_region(Some("eu-central-1".to_string())), "eu-central-1");
    assert_eq!(default_region(Some(String::new())), "");
}

#[test]
fn default_region_falls_back_to_us_west_2() {
    assert_eq!(default_region(None), "us-west-2");
}
