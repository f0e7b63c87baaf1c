use image::GenericImageView;
use thumbor::cache::store::CacheStore;
use thumbor::fetch::FetchError;
use thumbor::handler::{
    finish, request_path, status_code, DecodeError, HandlerError, Job, Next, Payload, Request,
};
use thumbor::key::derive_key;
use thumbor::transform::{
    FilterKind, OutputFormat, SampleFilter, TransformSpec, TransformStep,
};

const IMAGE_URL: &str = "https://images.example.com/photos/1562477/photo.jpeg?auto=compress&w=1260";
const ENCODED_IMAGE_URL: &str =
    "https%3A%2F%2Fimages%2Eexample%2Ecom%2Fphotos%2F1562477%2Fphoto%2Ejpeg%3Fauto%3Dcompress%26w%3D1260";

/// Stands for the spec decoder: it knows two tokens.
fn decode_spec(token: &str) -> Option<TransformSpec> {
    match token {
        "resize-500x800" => Some(TransformSpec::new(vec![TransformStep::resize(
            500,
            800,
            SampleFilter::CatmullRom,
        )])),
        "flip-then-crop" => Some(TransformSpec::new(vec![
            TransformStep::FlipHorizontal,
            TransformStep::Crop { x1: 0, y1: 0, x2: 8, y2: 4 },
        ])),
        _ => None,
    }
}

/// A small PNG, as an origin would serve it.
fn source_png(width: u32, height: u32) -> Vec<u8> {
    let pixels = image::RgbImage::from_fn(width, height, |x, y| {
        image::Rgb([(x * 7 % 256) as u8, (y * 11 % 256) as u8, 128])
    });
    let mut bytes = std::io::Cursor::new(Vec::new());
    image::DynamicImage::ImageRgb8(pixels)
        .write_to(&mut bytes, image::ImageOutputFormat::Png)
        .unwrap();
    bytes.into_inner()
}

/// Stands for the image engine.
fn render(job: &Job) -> Result<Vec<u8>, DecodeError> {
    let mut picture = match image::load_from_memory(&job.source) {
        Ok(picture) => picture,
        Err(_) => return Err(DecodeError),
    };
    for step in &job.steps {
        picture = match *step {
            TransformStep::Resize { width, height, .. } => {
                picture.resize_exact(width, height, image::imageops::FilterType::CatmullRom)
            }
            TransformStep::Crop { x1, y1, x2, y2 } => picture.crop_imm(x1, y1, x2 - x1, y2 - y1),
            TransformStep::FlipHorizontal => picture.fliph(),
            TransformStep::FlipVertical => picture.flipv(),
            TransformStep::Contrast { level_bits } => {
                picture.adjust_contrast(f32::from_bits(level_bits))
            }
            TransformStep::Filter { .. } => picture,
            TransformStep::Watermark { .. } => picture,
        };
    }
    let OutputFormat::Jpeg { quality } = job.format;
    let mut encoded = std::io::Cursor::new(Vec::new());
    picture.write_to(&mut encoded, image::ImageOutputFormat::Jpeg(quality)).unwrap();
    Ok(encoded.into_inner())
}

/// Runs one request to its end, counting the fetches.
fn serve(
    spec: &str,
    url: &str,
    cache: &mut CacheStore,
    origin: &Result<Vec<u8>, FetchError>,
    fetches: &mut usize,
) -> Result<Payload, HandlerError> {
    let request = Request::new(spec, url);
    let decoded = decode_spec(request.token());
    let job = match request.resolve(decoded, cache)? {
        Next::Render(job) => job,
        Next::Fetch(miss) => {
            assert_eq!(IMAGE_URL, miss.url());
            *fetches += 1;
            miss.complete(origin.clone(), cache)?
        }
    };
    let rendered = render(&job);
    finish(job.format, rendered)
}

#[test]
fn a_resize_request_is_answered_with_a_jpeg_of_that_size() {
    let mut cache = CacheStore::default();
    let mut fetches = 0;
    let origin = Ok(source_png(64, 48));
    let answer = serve("resize-500x800", ENCODED_IMAGE_URL, &mut cache, &origin, &mut fetches);

    assert_eq!(200, status_code(&answer));
    let payload = answer.unwrap();
    assert_eq!("image/jpeg", payload.content_type);
    assert_eq!(
        image::ImageFormat::Jpeg,
        image::guess_format(&payload.body).unwrap()
    );
    let picture = image::load_from_memory(&payload.body).unwrap();
    assert_eq!((500, 800), picture.dimensions());
    assert_eq!(1, fetches);
}

#[test]
fn the_second_request_for_a_url_is_served_from_the_cache() {
    let mut cache = CacheStore::default();
    let mut fetches = 0;
    let source = source_png(32, 32);
    let origin = Ok(source.clone());

    let first = serve("resize-500x800", ENCODED_IMAGE_URL, &mut cache, &origin, &mut fetches);
    assert_eq!(1, fetches);
    assert_eq!(Some(source.clone()), cache.get(derive_key(IMAGE_URL)));

    let gone = Err(FetchError::RemoteFailure);
    let second = serve("resize-500x800", ENCODED_IMAGE_URL, &mut cache, &gone, &mut fetches);
    assert_eq!(1, fetches);
    assert_eq!(200, status_code(&second));
    assert_eq!(first, second);
    assert_eq!(1, cache.len());

    let request = Request::new("flip-then-crop", ENCODED_IMAGE_URL);
    let decoded = decode_spec(request.token());
    match request.resolve(decoded, &mut cache) {
        Ok(Next::Render(job)) => {
            assert_eq!(source, job.source);
            assert_eq!(
                vec![
                    TransformStep::FlipHorizontal,
                    TransformStep::Crop { x1: 0, y1: 0, x2: 8, y2: 4 }
                ],
                job.steps
            );
            assert_eq!(OutputFormat::Jpeg { quality: 85 }, job.format);
        }
        _ => panic!("the source should be in the cache"),
    }
}

#[test]
fn a_malformed_spec_is_a_bad_request_and_nothing_is_fetched() {
    let mut cache = CacheStore::default();
    let mut fetches = 0;
    let origin = Ok(source_png(8, 8));
    let answer = serve("no such spec", ENCODED_IMAGE_URL, &mut cache, &origin, &mut fetches);

    assert_eq!(Err(HandlerError::BadSpec), answer);
    assert_eq!(400, status_code(&answer));
    assert_eq!(0, fetches);
    assert_eq!(0, cache.len());

    let request = Request::new("no such spec", ENCODED_IMAGE_URL);
    assert!(matches!(request.resolve(None, &mut cache), Err(HandlerError::BadSpec)));
}

#[test]
fn a_source_that_is_no_image_is_a_server_error() {
    let mut cache = CacheStore::default();
    let mut fetches = 0;
    let origin = Ok(b"plain text, no image".to_vec());
    let answer = serve("resize-500x800", ENCODED_IMAGE_URL, &mut cache, &origin, &mut fetches);

    assert_eq!(Err(HandlerError::BadImage), answer);
    assert_eq!(500, status_code(&answer));
    assert_eq!(1, fetches);
    assert!(cache.contains(derive_key(IMAGE_URL)));
}

#[test]
fn a_failed_fetch_is_a_bad_request_and_nothing_is_cached() {
    for error in [FetchError::UnsupportedScheme, FetchError::RemoteFailure, FetchError::LocalIo] {
        let mut cache = CacheStore::default();
        let mut fetches = 0;
        let origin = Err(error);
        let answer = serve("resize-500x800", ENCODED_IMAGE_URL, &mut cache, &origin, &mut fetches);
        assert_eq!(Err(HandlerError::FetchFailed), answer);
        assert_eq!(400, status_code(&answer));
        assert_eq!(1, fetches);
        assert_eq!(0, cache.len());
    }
}

#[test]
fn fifty_requests_for_one_cold_key_all_succeed_and_leave_one_entry() {
    let mut cache = CacheStore::default();
    let source = source_png(16, 16);

    let mut waiting = Vec::new();
    for _ in 0..50 {
        let request = Request::new("flip-then-crop", ENCODED_IMAGE_URL);
        let decoded = decode_spec(request.token());
        match request.resolve(decoded, &mut cache) {
            Ok(Next::Fetch(miss)) => waiting.push(miss),
            _ => panic!("the key is cold: every request has to fetch"),
        }
    }
    assert_eq!(0, cache.len());

    for miss in waiting {
        let job = miss.complete(Ok(source.clone()), &mut cache).unwrap();
        assert_eq!(1, cache.len());
        let answer = finish(job.format, render(&job));
        assert_eq!(200, status_code(&answer));
        let picture = image::load_from_memory(&answer.unwrap().body).unwrap();
        assert_eq!((8, 4), picture.dimensions());
    }
    assert_eq!(1, cache.len());
    assert_eq!(Some(source), cache.get(derive_key(IMAGE_URL)));
}

#[test]
fn the_last_put_for_a_key_wins() {
    let mut cache = CacheStore::new(4);
    let first = Request::new("flip-then-crop", "http%3A%2F%2Fa%2Fb");
    let second = Request::new("flip-then-crop", "http%3A%2F%2Fa%2Fb");
    let first = match first.resolve(decode_spec("flip-then-crop"), &mut cache) {
        Ok(Next::Fetch(miss)) => miss,
        _ => panic!("cold key"),
    };
    let second = match second.resolve(decode_spec("flip-then-crop"), &mut cache) {
        Ok(Next::Fetch(miss)) => miss,
        _ => panic!("cold key"),
    };
    assert_eq!(vec![2], second.complete(Ok(vec![2]), &mut cache).unwrap().source);
    assert_eq!(vec![1], first.complete(Ok(vec![1]), &mut cache).unwrap().source);
    assert_eq!(Some(vec![1]), cache.get(derive_key("http://a/b")));
    assert_eq!(1, cache.len());
}

#[test]
fn the_url_is_percent_decoded() {
    let request = Request::new("t", ENCODED_IMAGE_URL);
    assert_eq!(IMAGE_URL, request.url());
    assert_eq!("t", request.token());
    assert_eq!("a b/c", Request::new("t", "a%20b%2Fc").url());
    assert_eq!("plain", Request::new("t", "plain").url());
}

#[test]
fn malformed_percent_encoding_fails_no_request() {
    assert_eq!("100%", Request::new("t", "100%").url());
    assert_eq!("%zz%4", Request::new("t", "%zz%4").url());
    assert_eq!("\u{fffd}", Request::new("t", "%ff").url());
    assert_eq!("caf\u{e9}", Request::new("t", "caf%C3%A9").url());
}

#[test]
fn the_request_path_encodes_the_url() {
    let path = request_path("CgoKCAjYBBCgBiADCgY6BAgUEBQKBDICCAM", "https://a.b/c d?e=f&g=é");
    assert_eq!(
        "/image/CgoKCAjYBBCgBiADCgY6BAgUEBQKBDICCAM/https%3A%2F%2Fa%2Eb%2Fc%20d%3Fe%3Df%26g%3D%C3%A9",
        path
    );
    assert_eq!("/image//", request_path("", ""));
    assert_eq!("/image/x/abcXYZ019", request_path("x", "abcXYZ019"));
}

#[test]
fn a_request_path_leads_back_to_its_url() {
    for url in [IMAGE_URL, "file:///tmp/a b.png", "na\u{ef}ve/\u{4e16}\u{754c}", "100%25"] {
        let path = request_path("spec", url);
        let encoded = path.strip_prefix("/image/spec/").unwrap();
        assert_eq!(url, Request::new("spec", encoded).url());
    }
}

#[test]
fn errors_map_to_their_statuses() {
    assert_eq!(400, HandlerError::BadSpec.status());
    assert_eq!(400, HandlerError::FetchFailed.status());
    assert_eq!(500, HandlerError::BadImage.status());
    assert_eq!(Err(HandlerError::BadImage), finish(OutputFormat::fixed(), Err(DecodeError)));
    let answer = finish(OutputFormat::fixed(), Ok(vec![1, 2, 3]));
    assert_eq!(
        Ok(Payload { content_type: "image/jpeg".to_string(), body: vec![1, 2, 3] }),
        answer
    );
    assert_eq!(200, status_code(&answer));
}

#[test]
fn a_spec_keeps_its_steps_in_order() {
    let steps = vec![
        TransformStep::resize(500, 800, SampleFilter::CatmullRom),
        TransformStep::Filter { kind: FilterKind::Marine },
        TransformStep::FlipHorizontal,
        TransformStep::Watermark { x: 20, y: 20 },
    ];
    let spec = TransformSpec::new(steps.clone());
    assert_eq!(4, spec.len());
    assert_eq!(&steps, spec.steps());
    assert_eq!(steps, spec.clone().into_steps());
    assert_eq!("image/jpeg", OutputFormat::fixed().content_type());
    assert_eq!(OutputFormat::Jpeg { quality: 85 }, OutputFormat::fixed());
}
