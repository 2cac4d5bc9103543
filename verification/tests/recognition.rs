use base64::Engine;
use pt_manager::json::parse_json;
use pt_manager::ocr::{
    accept_payload, api_message, binarize, captcha_of, clean_image, clean_image_text,
    normalize_image_base64, ocr_ready, preprocess_captcha, request_failure_text, request_url,
    response_payload, string_array_contains, InitAction, OcrAction, OcrEvent, OcrInit,
    Recognition, RequestFailure, CAPTCHA_CHARSET, CAPTCHA_LENGTH,
};
use serde_json::Value;

fn value(text: &str) -> Value {
    serde_json::from_str(text).unwrap()
}

fn encoded(bytes: &[u8]) -> String {
    base64::engine::general_purpose::STANDARD.encode(bytes)
}

fn decoded(text: &str) -> Vec<u8> {
    base64::engine::general_purpose::STANDARD.decode(text).unwrap()
}

fn picture(pixels: Vec<u8>) -> Vec<u8> {
    let width = pixels.len() as u32;
    let image = image::GrayImage::from_raw(width, 1, pixels).unwrap();
    let mut out = std::io::Cursor::new(Vec::new());
    image::DynamicImage::ImageLuma8(image)
        .write_to(&mut out, image::ImageFormat::Png)
        .unwrap();
    out.into_inner()
}

const READY: &str =
    r#"{"service_status":"running","loaded_models":["x","ocr"],"enabled_features":["ocr"]}"#;

#[test]
fn services_are_ready_with_the_model_loaded() {
    assert!(ocr_ready(&parse_json(READY).unwrap()));
    for text in [
        r#"{"service_status":"stopped","loaded_models":["ocr"],"enabled_features":["ocr"]}"#,
        r#"{"service_status":"running","loaded_models":[],"enabled_features":["ocr"]}"#,
        r#"{"service_status":"running","loaded_models":["ocr"]}"#,
    ] {
        assert!(!ocr_ready(&parse_json(text).unwrap()));
    }
    assert!(!string_array_contains(None, "ocr"));
}

#[test]
fn messages_are_taken_from_replies() {
    let message = |text: &str| api_message(&parse_json(text).unwrap(), "f");
    assert_eq!(message(r#"{"message":"m","detail":"d"}"#), "m");
    assert_eq!(message(r#"{"detail":"d"}"#), "d");
    assert_eq!(message(r#"{"message":1,"detail":"d"}"#), "f");
    assert_eq!(message("{}"), "f");
}

#[test]
fn requests_go_to_web_addresses() {
    assert_eq!(request_url(" http://h// ", "/ocr"), Ok("http://h/ocr".to_string()));
    assert_eq!(request_url("https://h", "status"), Ok("https://h/status".to_string()));
    assert_eq!(
        request_url("h", "/ocr"),
        Err("OCR 地址必须以 http:// 或 https:// 开头".to_string())
    );
    assert_eq!(request_failure_text(RequestFailure::Timeout, "e"), "OCR 服务请求超时");
    assert_eq!(request_failure_text(RequestFailure::Connect, "e"), "OCR 服务连接失败：e");
    assert_eq!(request_failure_text(RequestFailure::Send, "e"), "OCR 请求失败：e");
    assert_eq!(request_failure_text(RequestFailure::Read, "e"), "读取 OCR 响应失败：e");
    assert_eq!(
        request_failure_text(RequestFailure::Client, "e"),
        "OCR HTTP 客户端初始化失败：e"
    );
}

#[test]
fn replies_are_taken_with_a_good_status() {
    assert_eq!(response_payload(200, r#"{"a":1}"#).unwrap().to_string(), r#"{"a":1}"#);
    assert_eq!(
        response_payload(500, r#"{"detail":"d"}"#).err(),
        Some(r#"OCR 服务返回 HTTP 500：d (完整响应: {"detail":"d"})"#.to_string())
    );
    assert_eq!(
        accept_payload(404, value("{}")).err(),
        Some("OCR 服务返回 HTTP 404：请求失败 (完整响应: {})".to_string())
    );
    let error = response_payload(200, "x").err().unwrap();
    assert!(error.starts_with("OCR JSON 解析失败："));
    assert!(error.ends_with(" (原始响应: x)"));
}

#[test]
fn prepared_services_are_asked_once() {
    let (mut init, action) = OcrInit::ensure_initialized(true);
    assert!(matches!(action, InitAction::GetStatus));
    assert!(matches!(init.advance(&Ok(value(READY))), InitAction::Ready { loaded: false }));
}

#[test]
fn services_are_loaded_and_asked_again() {
    let (mut init, _) = OcrInit::ensure_initialized(false);
    assert!(matches!(init.advance(&Ok(value(READY))), InitAction::PostInitialize));
    assert!(matches!(
        init.advance(&Ok(value(r#"{"success":true}"#))),
        InitAction::GetStatus
    ));
    assert!(matches!(init.advance(&Ok(value(READY))), InitAction::Ready { loaded: true }));
    let (mut init, action) = OcrInit::initialize();
    assert!(matches!(action, InitAction::PostInitialize));
    match init.advance(&Ok(value(r#"{"success":false}"#))) {
        InitAction::Failed(m) => assert_eq!(m, "OCR 服务初始化失败"),
        other => panic!("{:?}", other),
    }
    let (mut init, _) = OcrInit::initialize();
    init.advance(&Ok(value(r#"{"success":true}"#)));
    match init.advance(&Ok(value("{}"))) {
        InitAction::Failed(m) => {
            assert_eq!(m, "OCR 初始化完成，但状态中未发现可用的 OCR 模型")
        }
        other => panic!("{:?}", other),
    }
    let (mut init, _) = OcrInit::initialize();
    match init.advance(&Err("e".to_string())) {
        InitAction::Failed(m) => assert_eq!(m, "e"),
        other => panic!("{:?}", other),
    }
}

#[test]
fn captchas_have_six_letters_and_digits() {
    assert_eq!(CAPTCHA_LENGTH, 6);
    assert_eq!(CAPTCHA_CHARSET.len(), 62);
    let read = |text: &str| captcha_of(&value(text));
    assert_eq!(
        read(r#"{"success":true,"data":{"text":" aB3dE6 "}}"#),
        Ok("aB3dE6".to_string())
    );
    assert_eq!(
        read(r#"{"success":true,"data":{"text":"ab"}}"#),
        Err(r#"OCR 结果格式异常 (识别文本: "ab", 长度: 2, 要求长度: 6, 仅含英文数字: true, 完整响应: {"data":{"text":"ab"},"success":true})"#.to_string())
    );
    assert_eq!(
        read(r#"{"success":true,"data":{"text":"验证"}}"#),
        Err(r#"OCR 结果格式异常 (识别文本: "验证", 长度: 6, 要求长度: 6, 仅含英文数字: false, 完整响应: {"data":{"text":"验证"},"success":true})"#.to_string())
    );
    assert_eq!(
        read(r#"{"success":true,"data":{"text":"  "}}"#),
        Err(r#"OCR 未返回识别文本 (完整响应: {"data":{"text":"  "},"success":true})"#.to_string())
    );
    assert_eq!(
        read(r#"{"success":false,"message":"m"}"#),
        Err(r#"m (完整响应: {"message":"m","success":false})"#.to_string())
    );
}

fn asked() -> Recognition {
    let (mut run, action) = Recognition::begin(3);
    assert!(matches!(action, OcrAction::Prepare));
    assert!(matches!(run.advance(OcrEvent::Done(Ok(()))), OcrAction::Clean));
    assert!(matches!(
        run.advance(OcrEvent::Done(Ok(()))),
        OcrAction::Ask { png_fix: false }
    ));
    run
}

#[test]
fn recognised_texts_are_returned() {
    match asked().advance(OcrEvent::Reply(Ok("abc123".to_string()))) {
        OcrAction::Found(result) => {
            assert_eq!((result.text.as_str(), result.attempts), ("abc123", 1))
        }
        other => panic!("{:?}", other),
    }
}

#[test]
fn the_model_is_loaded_again_after_the_first_failure() {
    let mut run = asked();
    assert!(matches!(
        run.advance(OcrEvent::Reply(Err("e".to_string()))),
        OcrAction::Reload
    ));
    assert!(matches!(run.advance(OcrEvent::Done(Ok(()))), OcrAction::Pause));
    assert!(matches!(run.advance(OcrEvent::Paused), OcrAction::Ask { png_fix: true }));
    assert!(matches!(
        run.advance(OcrEvent::Reply(Err("f".to_string()))),
        OcrAction::Pause
    ));
    assert!(matches!(run.advance(OcrEvent::Paused), OcrAction::Ask { png_fix: true }));
    assert!(matches!(
        run.advance(OcrEvent::Reply(Err("g".to_string()))),
        OcrAction::Pause
    ));
    match run.advance(OcrEvent::Paused) {
        OcrAction::Failed(m) => assert_eq!(m, "g，已尝试 3 次"),
        other => panic!("{:?}", other),
    }
}

#[test]
fn failures_before_asking_end_the_recognition() {
    let (mut run, _) = Recognition::begin(0);
    match run.advance(OcrEvent::Done(Err("e".to_string()))) {
        OcrAction::Failed(m) => assert_eq!(m, "e"),
        other => panic!("{:?}", other),
    }
    let mut run = asked();
    run.advance(OcrEvent::Reply(Err("e".to_string())));
    match run.advance(OcrEvent::Done(Err("r".to_string()))) {
        OcrAction::Failed(m) => assert_eq!(m, "r"),
        other => panic!("{:?}", other),
    }
}

#[test]
fn encoded_pictures_are_cleaned() {
    assert_eq!(clean_image_text(" data:image/png;BASE64,a-b_\n c "), "a+b/c===");
    assert_eq!(clean_image_text("ab,cd"), "ab,cd===");
    let image = normalize_image_base64("data:image/png;base64,aGk").unwrap();
    assert_eq!(image, "aGk=");
    assert_eq!(normalize_image_base64("__-_").unwrap(), encoded(&[0xff, 0xff, 0xbf]));
    assert_eq!(normalize_image_base64("  ").err(), Some("验证码截图为空".to_string()));
    assert!(normalize_image_base64("!!!!")
        .err()
        .unwrap()
        .starts_with("验证码截图 Base64 格式无效："));
}

#[test]
fn cleaning_twice_changes_nothing() {
    let once = normalize_image_base64("aGVsbG8").unwrap();
    assert_eq!(normalize_image_base64(&once), Ok(once.clone()));
}

#[test]
fn pixels_become_black_or_white() {
    let mut pixels = vec![0, 79, 80, 81, 255];
    binarize(&mut pixels);
    assert_eq!(pixels, vec![0, 0, 0, 255, 255]);
}

#[test]
fn pictures_are_decoded_and_written_again() {
    let source = picture(vec![0, 80, 81, 200]);
    let result = preprocess_captcha(&encoded(&source)).unwrap();
    let image = image::load_from_memory(&decoded(&result)).unwrap().to_luma8();
    assert_eq!(image.dimensions(), (4, 1));
    assert_eq!(image.into_raw(), vec![0, 0, 255, 255]);
    assert_eq!(clean_image(&source), Ok(result));
    assert!(preprocess_captcha("aGk=").err().unwrap().starts_with("验证码图片解码失败："));
}
