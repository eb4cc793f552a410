use bbg::replies::{
    age_message, age_reply, avatar_title, check_image_request, image_failure_reply, image_request_reply,
    ipv4_reply, latency_message, pi_reply, processed_image_name, seconds_of_millis, uptime_message,
    user_info_text, ImageRequest,
};

#[test]
fn uptime_texts() {
    assert_eq!(uptime_message(0), "uptime: 00:00:00");
    assert_eq!(uptime_message(3661), "uptime: 01:01:01");
    assert_eq!(uptime_message(86399), "uptime: 23:59:59");
    assert_eq!(uptime_message(360000), "uptime: 100:00:00");
}

#[test]
fn latency_texts() {
    assert_eq!(latency_message(1_000_000, 1_123_456), "Pong! Latency: `123ms`");
    assert_eq!(latency_message(1_000_000, 1_000_999), "Pong! Latency: `0ms`");
    assert_eq!(latency_message(1_000_999, 1_000_000), "Pong! Latency: `0ms`");
    assert_eq!(latency_message(2_000_000, 1_000_000), "Pong! Latency: `-1000ms`");
}

#[test]
fn simple_replies() {
    assert_eq!(user_info_text(80351110224678912, "nelly"), "id: 80351110224678912\nusername: @nelly");
    assert_eq!(avatar_title("nelly"), "nelly's avatar");
    assert_eq!(pi_reply("3.14"), "pi is: 3.14");
    assert_eq!(ipv4_reply("1.2.3.4"), "heres a vaild ip address (may not be online): 1.2.3.4");
    assert_eq!(processed_image_name("cat.png"), "new!!!_cat.png");
    assert_eq!(image_failure_reply("boom"), "kaBOOMM! boom");
}

#[test]
fn image_request_decisions() {
    assert_eq!(check_image_request(None, true, false, false), ImageRequest::NotAnImage);
    assert_eq!(check_image_request(Some("text/plain"), true, true, true), ImageRequest::NotAnImage);
    assert_eq!(check_image_request(Some("image/png"), false, false, false), ImageRequest::NothingToDo);
    assert_eq!(check_image_request(Some("image/png"), false, true, false), ImageRequest::Process);
    assert_eq!(image_request_reply(ImageRequest::NotAnImage), Some("please provide a valid image file!"));
    assert_eq!(image_request_reply(ImageRequest::NothingToDo), Some("??? bro i aint giving you the same image"));
    assert_eq!(image_request_reply(ImageRequest::Process), None);
}

#[test]
fn seconds_round_down() {
    assert_eq!(seconds_of_millis(1500), 1);
    assert_eq!(seconds_of_millis(-1), -1);
    assert_eq!(seconds_of_millis(-1000), -1);
    assert_eq!(seconds_of_millis(-1001), -2);
    assert_eq!(seconds_of_millis(i64::MIN), i64::MIN.div_euclid(1000));
}

#[test]
fn age_texts() {
    assert_eq!(
        age_message("nelly", 0).unwrap(),
        "nelly's account was created at 1970-01-01 00:00:00 UTC (<t:0:R>)"
    );
    assert_eq!(
        age_message("nelly", 1_420_070_400_500).unwrap(),
        "nelly's account was created at 2015-01-01 00:00:00.500 UTC (<t:1420070400:R>)"
    );
    assert_eq!(
        age_message("x", -1).unwrap(),
        "x's account was created at 1969-12-31 23:59:59.999 UTC (<t:-1:R>)"
    );
}

#[test]
fn age_reply_from_given_text() {
    assert_eq!(
        age_reply("nelly", "whenever", 2500),
        "nelly's account was created at whenever (<t:2:R>)"
    );
    assert_eq!(age_reply("n", "t", -2500), "n's account was created at t (<t:-3:R>)");
}

#[test]
fn uptime_fields_recompose() {
    for secs in [0u64, 59, 61, 3599, 3600, 7322, 999_999] {
        let text = uptime_message(secs);
        let clock = text.strip_prefix("uptime: ").unwrap();
        let parts: Vec<u64> = clock.split(':').map(|p| p.parse().unwrap()).collect();
        assert_eq!(parts[0] * 3600 + parts[1] * 60 + parts[2], secs);
        assert!(parts[1] < 60 && parts[2] < 60);
    }
}
