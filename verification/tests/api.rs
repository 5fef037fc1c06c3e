use demux2::address::Rusoto;
use demux2::job::Discovery;
use demux2::{demux_main, Media, Request, Response};

fn descriptor(uri: &str) -> Rusoto {
    Rusoto {
        uri: uri.to_string(),
        region: "eu-west-1".to_string(),
        endpoint: None,
        access_key_id: None,
        secret_access_key: None,
        blocksize: None,
    }
}

#[test]
fn job_types_are_reachable_from_the_crate_root() {
    let request = Request { src: descriptor("s3://in/a.mkv"), sink: descriptor("s3://out/a") };
    let discoveries = vec![Discovery {
        stream: "src_0".to_string(),
        content_type: Some("video/x-av1".to_string()),
        hot_plug: Ok(()),
    }];
    assert_eq!(
        demux_main(request, discoveries),
        Ok(Response {
            medias: vec![Media {
                media_type: "video/x-av1".to_string(),
                uri: "s3://out/a".to_string(),
            }],
        })
    );
}
