use demux2::address::Rusoto;
use demux2::dispatch::{
    conclude, dispatch, dispatch_with_token, fatal_error, sink_pipeline, source_pipeline,
    Dispatch, Element, Property, PropertyValue, SubgraphPlan,
};
use demux2::codec::Parser;
use demux2::message::{EventMessage, JobError, Level, Media};

fn sink(uri: &str, endpoint: Option<&str>) -> Rusoto {
    Rusoto {
        uri: uri.to_string(),
        region: "us-west-2".to_string(),
        endpoint: endpoint.map(|e| e.to_string()),
        access_key_id: None,
        secret_access_key: None,
        blocksize: None,
    }
}

fn flag(name: &str, on: bool) -> Property {
    Property { name: name.to_string(), value: PropertyValue::Flag(on) }
}

fn text(name: &str, value: &str) -> Property {
    Property { name: name.to_string(), value: PropertyValue::Text(value.to_string()) }
}

fn element(factory: &str, properties: Vec<Property>) -> Element {
    Element { factory: factory.to_string(), properties }
}

fn chain(parser: &str, address: &str) -> Vec<Element> {
    vec![
        element("queue", vec![]),
        element(parser, vec![]),
        element("qtmux", vec![flag("faststart", true)]),
        element(
            "rusotos3sink",
            vec![flag("async", true), flag("sync", false), text("uri", address)],
        ),
    ]
}

fn is_token(text: &str) -> bool {
    text.len() == 36
        && text.chars().enumerate().all(|(at, c)| {
            if at == 8 || at == 13 || at == 18 || at == 23 {
                c == '-'
            } else {
                c.is_ascii_digit() || ('a'..='f').contains(&c)
            }
        })
}

#[test]
fn stream_without_content_type_is_abandoned_with_a_warning() {
    let outcome = dispatch_with_token("src_0", None, &sink("s3://b/%u.mp4", None), "T");
    assert_eq!(
        outcome,
        Dispatch::Publish(EventMessage::Diagnostic {
            level: Level::Warning,
            text: "Failed to get media type from pad src_0".to_string(),
        })
    );
}

#[test]
fn unsupported_content_type_is_fatal() {
    let outcome =
        dispatch_with_token("src_1", Some("video/unknown"), &sink("s3://b/%u.mp4", None), "T");
    assert_eq!(
        outcome,
        Dispatch::Publish(EventMessage::FatalError {
            message: "Failed to insert sink".to_string(),
            debug_info: Some("Unsupported Format: video/unknown".to_string()),
            cause: JobError::UnsupportedFormat("video/unknown".to_string()),
        })
    );
}

#[test]
fn supported_stream_gets_a_chain_of_its_own() {
    let outcome = dispatch_with_token(
        "src_0",
        Some("video/x-h264"),
        &sink("s3://bucket/out-%u.mp4", None),
        "1234",
    );
    assert_eq!(
        outcome,
        Dispatch::HotPlug(SubgraphPlan {
            elements: chain("h264parse", "s3://us-west-2/bucket/out-1234.mp4"),
            media: Media {
                media_type: "video/x-h264".to_string(),
                uri: "s3://bucket/out-1234.mp4".to_string(),
            },
        })
    );
}

#[test]
fn each_codec_gets_its_parser() {
    for (content_type, parser) in [
        ("audio/mpeg", "aacparse"),
        ("video/x-h264", "h264parse"),
        ("video/x-h265", "h265parse"),
        ("video/x-av1", "av1parse"),
    ] {
        let outcome = dispatch_with_token("p", Some(content_type), &sink("o/%u", None), "t");
        assert_eq!(
            outcome,
            Dispatch::HotPlug(SubgraphPlan {
                elements: chain(parser, "s3://us-west-2/o/t"),
                media: Media { media_type: content_type.to_string(), uri: "o/t".to_string() },
            })
        );
    }
}

#[test]
fn sink_address_carries_the_packed_endpoint() {
    let outcome = dispatch_with_token(
        "src_0",
        Some("audio/mpeg"),
        &sink("s3://bucket/%u.mp4", Some("http://minio:9000")),
        "tok",
    );
    assert_eq!(
        outcome,
        Dispatch::HotPlug(SubgraphPlan {
            elements: chain(
                "aacparse",
                "s3://OVZS253FON2C2MQ+NB2HI4B2F4XW22LONFXTUOJQGAYA/bucket/tok.mp4"
            ),
            media: Media {
                media_type: "audio/mpeg".to_string(),
                uri: "s3://bucket/tok.mp4".to_string(),
            },
        })
    );
}

#[test]
fn template_without_placeholder_gives_the_same_destination() {
    let first = dispatch_with_token("a", Some("audio/mpeg"), &sink("s3://b/out.mp4", None), "1");
    let second = dispatch_with_token("b", Some("audio/mpeg"), &sink("s3://b/out.mp4", None), "2");
    assert_eq!(first, second);
}

#[test]
fn fresh_token_lands_in_address_and_uri() {
    let outcome = dispatch("src_0", Some("video/x-h265"), &sink("s3://bucket/out-%u.mp4", None));
    let plan = match outcome {
        Dispatch::HotPlug(plan) => plan,
        other => panic!("unexpected {:?}", other),
    };
    let token = plan
        .media
        .uri
        .strip_prefix("s3://bucket/out-")
        .unwrap()
        .strip_suffix(".mp4")
        .unwrap()
        .to_string();
    assert!(is_token(&token), "{}", token);
    assert_eq!(plan.media.media_type, "video/x-h265");
    assert_eq!(
        plan.elements,
        chain("h265parse", &format!("s3://us-west-2/bucket/out-{}.mp4", token))
    );
}

#[test]
fn two_streams_draw_different_tokens() {
    let target = sink("%u", None);
    let first = dispatch("a", Some("audio/mpeg"), &target);
    let second = dispatch("b", Some("audio/mpeg"), &target);
    match (first, second) {
        (Dispatch::HotPlug(first), Dispatch::HotPlug(second)) => {
            assert!(is_token(&first.media.uri));
            assert!(is_token(&second.media.uri));
            assert_ne!(first.media.uri, second.media.uri);
            assert_ne!(first.elements, second.elements);
        }
        other => panic!("unexpected {:?}", other),
    }
}

#[test]
fn dispatch_without_chain_does_not_depend_on_a_token() {
    let target = sink("%u", None);
    assert_eq!(
        dispatch("pad", None, &target),
        dispatch_with_token("pad", None, &target, "any")
    );
    assert_eq!(
        dispatch("pad", Some("video/unknown"), &target),
        dispatch_with_token("pad", Some("video/unknown"), &target, "any")
    );
}

#[test]
fn successful_hot_plug_announces_the_output() {
    let media = Media { media_type: "audio/mpeg".to_string(), uri: "s3://b/x".to_string() };
    assert_eq!(conclude(media.clone(), Ok(())), EventMessage::StreamProduced(media));
}

#[test]
fn failed_hot_plug_is_fatal_with_the_engine_cause() {
    let media = Media { media_type: "audio/mpeg".to_string(), uri: "s3://b/x".to_string() };
    assert_eq!(
        conclude(media, Err(JobError::MissingElement("rusotos3sink".to_string()))),
        EventMessage::FatalError {
            message: "Failed to insert sink".to_string(),
            debug_info: Some("Missing element: rusotos3sink".to_string()),
            cause: JobError::MissingElement("rusotos3sink".to_string()),
        }
    );
}

#[test]
fn fatal_error_wraps_the_cause() {
    assert_eq!(
        fatal_error(JobError::Engine("Failed to link".to_string())),
        EventMessage::FatalError {
            message: "Failed to insert sink".to_string(),
            debug_info: Some("Failed to link".to_string()),
            cause: JobError::Engine("Failed to link".to_string()),
        }
    );
}

#[test]
fn sink_pipeline_lists_the_chain_in_link_order() {
    assert_eq!(
        sink_pipeline(Parser::Av1, "s3://r/b/k".to_string()),
        chain("av1parse", "s3://r/b/k")
    );
}

#[test]
fn source_pipeline_sets_the_resolved_uri_only() {
    let source = sink("s3://bucket/in.mp4", None);
    assert_eq!(
        source_pipeline(&source),
        vec![
            element("rusotos3src", vec![text("uri", "s3://us-west-2/bucket/in.mp4")]),
            element("parsebin", vec![]),
        ]
    );
}

#[test]
fn source_pipeline_passes_credentials_and_block_size() {
    let source = Rusoto {
        uri: "s3://bucket/in.mp4".to_string(),
        region: "us-west-2".to_string(),
        endpoint: Some("http://minio:9000".to_string()),
        access_key_id: Some("key".to_string()),
        secret_access_key: Some("hidden".to_string()),
        blocksize: Some(65536),
    };
    assert_eq!(
        source_pipeline(&source),
        vec![
            element(
                "rusotos3src",
                vec![
                    text(
                        "uri",
                        "s3://OVZS253FON2C2MQ+NB2HI4B2F4XW22LONFXTUOJQGAYA/bucket/in.mp4"
                    ),
                    text("access-key", "key"),
                    text("secret-access-key", "hidden"),
                    Property {
                        name: "blocksize".to_string(),
                        value: PropertyValue::Number(65536),
                    },
                ]
            ),
            element("parsebin", vec![]),
        ]
    );
}

#[test]
fn source_pipeline_skips_what_the_descriptor_leaves_out() {
    let source = Rusoto {
        uri: "in.mp4".to_string(),
        region: "r".to_string(),
        endpoint: None,
        access_key_id: None,
        secret_access_key: Some("hidden".to_string()),
        blocksize: None,
    };
    assert_eq!(
        source_pipeline(&source),
        vec![
            element(
                "rusotos3src",
                vec![text("uri", "s3://r/in.mp4"), text("secret-access-key", "hidden")]
            ),
            element("parsebin", vec![]),
        ]
    );
}
