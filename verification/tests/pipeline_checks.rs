use thumbor_rust::calc::Size;
use thumbor_rust::pipeline::{
    compute_geometry_plan, is_remote_filename, plan_request, PipelineError,
};
use thumbor_rust::settings::Settings;
use thumbor_rust::url_props::ParseError;

fn unsafe_settings() -> Settings {
    Settings { debug: false, secret_key: String::new() }
}

#[test]
fn plan_request_parses_a_plain_request() {
    let props = plan_request("/unsafe/600x300/image.jpg", &unsafe_settings()).unwrap();
    assert_eq!(props.width, 600);
    assert_eq!(props.height, 300);
    assert_eq!(props.filename, "image.jpg");
    assert_eq!(props.alignment.halign.name(), "center");
    assert_eq!(props.alignment.valign.name(), "middle");
    assert!(!props.alignment.smart);
    assert!(!props.flip.horizontal);
    assert!(!props.flip.vertical);
}

#[test]
fn plan_request_folds_signs_into_flips() {
    let props = plan_request("/unsafe/-670x390/big.jpg", &unsafe_settings()).unwrap();
    assert_eq!(props.width, 670);
    assert_eq!(props.height, 390);
    assert!(props.flip.horizontal);
    assert!(!props.flip.vertical);
}

#[test]
fn plan_request_recognizes_smart_and_alignment_segments() {
    let props = plan_request("/unsafe/10x20/smart/f.jpg", &unsafe_settings()).unwrap();
    assert!(props.alignment.smart);
    assert_eq!(props.filename, "f.jpg");

    let props = plan_request("/unsafe/10x20/smart/left/top/f.jpg", &unsafe_settings()).unwrap();
    assert!(!props.alignment.smart);
    assert_eq!(props.alignment.halign.name(), "left");
    assert_eq!(props.alignment.valign.name(), "top");
    assert_eq!(props.filename, "f.jpg");

    let props = plan_request("/unsafe/10x20/right/f.jpg", &unsafe_settings()).unwrap();
    assert!(!props.alignment.smart);
    assert_eq!(props.alignment.halign.name(), "right");
    assert_eq!(props.alignment.valign.name(), "middle");
}

#[test]
fn plan_request_keeps_remote_urls_verbatim() {
    let props = plan_request(
        "/unsafe/300x200/smart/http://picsum.photo/500/500.jpg",
        &unsafe_settings(),
    )
    .unwrap();
    assert!(props.alignment.smart);
    assert_eq!(props.filename, "http://picsum.photo/500/500.jpg");
}

#[test]
fn plan_request_rejects_a_wrong_token() {
    let settings = Settings { debug: false, secret_key: "MY_KEY".to_string() };
    assert_eq!(
        plan_request("/unsafe/50x50/big.jpg", &settings).unwrap_err(),
        PipelineError::SignatureInvalid
    );
    // The right token verifies and parses.
    let props = plan_request("/sMxTvxyS2uudMVBgjPv_YfTFe3E=/50x50/big.jpg", &settings).unwrap();
    assert_eq!(props.width, 50);
    assert_eq!(props.filename, "big.jpg");
}

#[test]
fn plan_request_reports_malformed_shapes() {
    let s = unsafe_settings();
    assert_eq!(
        plan_request("", &s).unwrap_err(),
        PipelineError::BadRequest(ParseError::MalformedPath)
    );
    assert_eq!(
        plan_request("/unsafe", &s).unwrap_err(),
        PipelineError::BadRequest(ParseError::MalformedPath)
    );
    // No `x` in the dimensions segment.
    assert_eq!(
        plan_request("/unsafe/600-300/f.jpg", &s).unwrap_err(),
        PipelineError::BadRequest(ParseError::MalformedPath)
    );
    // Nothing after the dimensions.
    assert_eq!(
        plan_request("/unsafe/600x300", &s).unwrap_err(),
        PipelineError::BadRequest(ParseError::MalformedPath)
    );
}

#[test]
fn plan_request_reports_bad_directives() {
    let s = unsafe_settings();
    assert_eq!(
        plan_request("/unsafe/ax300/f.jpg", &s).unwrap_err(),
        PipelineError::BadRequest(ParseError::InvalidDimension)
    );
    assert_eq!(
        plan_request("/unsafe/600x/f.jpg", &s).unwrap_err(),
        PipelineError::BadRequest(ParseError::InvalidDimension)
    );
    assert_eq!(
        plan_request("/unsafe/0x0/f.jpg", &s).unwrap_err(),
        PipelineError::BadRequest(ParseError::UnderspecifiedSize)
    );
}

#[test]
fn geometry_plan_for_a_portrait_source() {
    // Source 3456x5184, target 670x390, default anchor.
    let props = plan_request("/unsafe/670x390/big.jpg", &unsafe_settings()).unwrap();
    let plan = compute_geometry_plan(&props, Size { width: 3456, height: 5184 }).unwrap();
    assert_eq!(plan.resize_to.width, 670);
    assert_eq!(plan.resize_to.height, 1005);
    assert_eq!(plan.crop.x, 0);
    assert_eq!(plan.crop.y, 307);
    assert_eq!(plan.crop.width, 670);
    assert_eq!(plan.crop.height, 390);
}

#[test]
fn geometry_plan_for_a_landscape_source_with_far_anchor() {
    // Source 5184x3456, target 390x670, anchored right/bottom.
    let props = plan_request("/unsafe/390x670/right/bottom/big.jpg", &unsafe_settings()).unwrap();
    let plan = compute_geometry_plan(&props, Size { width: 5184, height: 3456 }).unwrap();
    assert_eq!(plan.resize_to.width, 1005);
    assert_eq!(plan.resize_to.height, 670);
    assert_eq!(plan.crop.x, 615);
    assert_eq!(plan.crop.y, 0);
    assert_eq!(plan.crop.width, 390);
    assert_eq!(plan.crop.height, 670);
}

#[test]
fn geometry_plan_derives_a_zero_dimension() {
    // Width 0 derives from the height at the source's ratio: 3456*390/5184.
    let props = plan_request("/unsafe/0x390/big.jpg", &unsafe_settings()).unwrap();
    let plan = compute_geometry_plan(&props, Size { width: 3456, height: 5184 }).unwrap();
    assert_eq!(plan.crop.width, 260);
    assert_eq!(plan.crop.height, 390);
    assert_eq!(plan.resize_to.width, 260);
    assert_eq!(plan.resize_to.height, 390);
}

#[test]
fn geometry_plan_rejects_an_unrepresentable_derivation() {
    // Height 1 against an extremely tall source derives a zero width.
    let props = plan_request("/unsafe/0x1/big.jpg", &unsafe_settings()).unwrap();
    let err = compute_geometry_plan(&props, Size { width: 1, height: 1000 }).unwrap_err();
    assert_eq!(err, PipelineError::BadRequest(ParseError::InvalidDimension));
}

#[test]
fn geometry_plan_always_stays_contained() {
    let sources = [(3456, 5184), (5184, 3456), (1, 999), (999, 1), (123, 457)];
    let paths = [
        "/unsafe/670x390/f.jpg",
        "/unsafe/390x670/left/top/f.jpg",
        "/unsafe/7x3/right/bottom/f.jpg",
        "/unsafe/0x5/f.jpg",
        "/unsafe/5x0/f.jpg",
    ];
    for (sw, sh) in sources {
        for path in paths {
            let props = plan_request(path, &unsafe_settings()).unwrap();
            if let Ok(plan) = compute_geometry_plan(&props, Size { width: sw, height: sh }) {
                assert!(plan.crop.x >= 0);
                assert!(plan.crop.y >= 0);
                assert!(plan.crop.x + plan.crop.width <= plan.resize_to.width);
                assert!(plan.crop.y + plan.crop.height <= plan.resize_to.height);
            }
        }
    }
}

#[test]
fn remote_filenames_are_absolute_urls() {
    assert!(is_remote_filename("http://picsum.photo/500/500.jpg"));
    assert!(is_remote_filename("https://picsum.photo/500.jpg"));
    assert!(!is_remote_filename("big.jpg"));
    assert!(!is_remote_filename("http:/not-quite"));
    assert!(!is_remote_filename("httpx://nope"));
    assert!(!is_remote_filename(""));
}
