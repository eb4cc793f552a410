//! The text of the bot's replies to its general commands.

use vstd::prelude::*;
use vstd::string::*;
use crate::decimal::{
    decimal, parse_of_decimal, parse_unsigned, push_decimal, push_signed, push_two_digit,
    signed_decimal, signed_decimal_shape, two_digit, two_digit_reads_back,
};
use crate::text::{has_prefix, starts_with};

verus! {

/// `{h:02}:{m:02}:{s:02}` for a number of seconds; the hours are not wrapped.
pub open spec fn clock_text(secs: nat) -> Seq<char> {
    two_digit(secs / 3600) + ":"@ + two_digit((secs % 3600) / 60) + ":"@ + two_digit(secs % 60)
}

/// The reply of the uptime command for the seconds the bot has been running.
pub fn uptime_message(elapsed_secs: u64) -> (res: String)
    ensures
        res@ == "uptime: "@ + clock_text(elapsed_secs as nat),
{
    let mut s = String::from_str("uptime: ");
    push_two_digit(&mut s, elapsed_secs / 3600);
    s.append(":");
    push_two_digit(&mut s, (elapsed_secs % 3600) / 60);
    s.append(":");
    push_two_digit(&mut s, elapsed_secs % 60);
    s
}

/// The fields of the uptime clock give back the time they show: whole hours,
/// then minutes and seconds below 60, adding up to the elapsed seconds.
pub proof fn clock_fields_add_up(secs: nat)
    ensures
        (secs % 3600) / 60 < 60,
        secs % 60 < 60,
        (secs / 3600) * 3600 + ((secs % 3600) / 60) * 60 + secs % 60 == secs,
{
    let h = secs / 3600;
    let r = secs % 3600;
    assert(secs == h * 3600 + r);
    assert(r == (r / 60) * 60 + r % 60);
    assert(r % 60 == secs % 60) by (nonlinear_arith)
        requires
            secs == h * 3600 + r,
            h >= 0,
            0 <= r < 3600,
    ;
}

/// Whole milliseconds in a span of microseconds, rounded toward zero, as
/// `chrono::TimeDelta::num_milliseconds` counts them.
pub open spec fn whole_millis(micros: int) -> int {
    if micros >= 0 {
        micros / 1000
    } else {
        -((-micros) / 1000)
    }
}

/// The reply of the ping command for the two times, in microseconds.
pub open spec fn latency_text(before_micros: int, after_micros: int) -> Seq<char> {
    "Pong! Latency: `"@ + signed_decimal(whole_millis(after_micros - before_micros)) + "ms`"@
}

/// The latency is the time from the command to the answer in whole
/// milliseconds, rounded toward zero: its sign is that of the elapsed time,
/// and its magnitude in milliseconds is within one millisecond below the
/// elapsed time's.
pub proof fn latency_counts_elapsed_millis(before_micros: int, after_micros: int)
    ensures
        ({
            let d = after_micros - before_micros;
            let w = whole_millis(d);
            &&& d >= 0 ==> 0 <= w && w * 1000 <= d < w * 1000 + 1000
            &&& d < 0 ==> w <= 0 && d <= w * 1000 && w * 1000 - 1000 < d
            &&& latency_text(before_micros, after_micros) == "Pong! Latency: `"@ + signed_decimal(w)
                + "ms`"@
        }),
{
    let d = after_micros - before_micros;
    if d >= 0 {
        assert(d / 1000 * 1000 <= d < d / 1000 * 1000 + 1000) by (nonlinear_arith)
            requires
                d >= 0,
        ;
    } else {
        let m = -d;
        assert(m / 1000 * 1000 <= m < m / 1000 * 1000 + 1000) by (nonlinear_arith)
            requires
                m > 0,
        ;
    }
}

/// The reply of the ping command, from the times (in microseconds since the
/// epoch) of the command and of the bot's first answer.
pub fn latency_message(before_micros: i64, after_micros: i64) -> (res: String)
    ensures
        res@ == latency_text(before_micros as int, after_micros as int),
        res@ == "Pong! Latency: `"@ + signed_decimal(
            whole_millis(after_micros - before_micros),
        ) + "ms`"@,
{
    let delta: i128 = after_micros as i128 - before_micros as i128;
    let millis: i64 = if delta >= 0 {
        (delta / 1000) as i64
    } else {
        (-((-delta) / 1000)) as i64
    };
    let mut s = String::from_str("Pong! Latency: `");
    push_signed(&mut s, millis);
    s.append("ms`");
    s
}

/// The user-info field for a user id and name.
pub open spec fn user_info_of(id: u64, name: Seq<char>) -> Seq<char> {
    "id: "@ + decimal(id as nat) + "\nusername: @"@ + name
}

/// The user-info field gives the id (text reading back as the id) on its
/// first line and the name after `@` on the second.
pub proof fn user_info_names_the_user(id: u64, name: Seq<char>)
    ensures
        exists|t: Seq<char>|
            #[trigger] user_info_of(id, name) == "id: "@ + t + "\nusername: @"@ + name
                && parse_unsigned(t, u64::MAX as nat) == Some(id as nat),
{
    parse_of_decimal(id as nat, u64::MAX as nat);
    assert(user_info_of(id, name) == "id: "@ + decimal(id as nat) + "\nusername: @"@ + name);
}

/// The user-info field of the user command.
pub fn user_info_text(id: u64, name: &str) -> (res: String)
    ensures
        res@ == user_info_of(id, name@),
        res@ == "id: "@ + decimal(id as nat) + "\nusername: @"@ + name@,
{
    let mut s = String::from_str("id: ");
    push_decimal(&mut s, id);
    s.append("\nusername: @");
    s.append(name);
    s
}

/// The title of the avatar command's embed.
pub fn avatar_title(name: &str) -> (res: String)
    ensures
        res@ == name@ + "'s avatar"@,
{
    let mut s = String::from_str(name);
    s.append("'s avatar");
    s
}

/// The reply of the pi command.
pub fn pi_reply(pi: &str) -> (res: String)
    ensures
        res@ == "pi is: "@ + pi@,
{
    let mut s = String::from_str("pi is: ");
    s.append(pi);
    s
}

/// The reply of the ipv4 command.
pub fn ipv4_reply(ip: &str) -> (res: String)
    ensures
        res@ == "heres a vaild ip address (may not be online): "@ + ip@,
{
    let mut s = String::from_str("heres a vaild ip address (may not be online): ");
    s.append(ip);
    s
}

/// What the image command does with a request.
#[derive(Debug, Clone, Copy, PartialEq, Eq, Structural)]
pub enum ImageRequest {
    /// The attachment is not an image.
    NotAnImage,
    /// No operation was asked for.
    NothingToDo,
    /// The image is fetched and processed.
    Process,
}

/// The image command's decision: the attachment must declare an `image/`
/// content type, and at least one of blur, flip and grayscale must be asked for.
pub open spec fn image_request_of(
    content_type: Option<Seq<char>>,
    blur: bool,
    flip: bool,
    grayscale: bool,
) -> ImageRequest {
    if !(content_type matches Some(ct) && has_prefix(ct, "image/"@)) {
        ImageRequest::NotAnImage
    } else if !blur && !flip && !grayscale {
        ImageRequest::NothingToDo
    } else {
        ImageRequest::Process
    }
}

/// Decides what the image command does; the flags tell which options were given.
pub fn check_image_request(content_type: Option<&str>, blur: bool, flip: bool, grayscale: bool) -> (res:
    ImageRequest)
    ensures
        res == image_request_of(
            match content_type {
                Some(c) => Some(c@),
                None => None,
            },
            blur,
            flip,
            grayscale,
        ),
{
    let is_image = match content_type {
        Some(ct) => starts_with(ct, "image/"),
        None => false,
    };
    if !is_image {
        ImageRequest::NotAnImage
    } else if !blur && !flip && !grayscale {
        ImageRequest::NothingToDo
    } else {
        ImageRequest::Process
    }
}

/// The reply for a request that is not processed; `None` when it is.
pub fn image_request_reply(request: ImageRequest) -> (res: Option<&'static str>)
    ensures
        match request {
            ImageRequest::NotAnImage => res matches Some(t) && t@
                == "please provide a valid image file!"@,
            ImageRequest::NothingToDo => res matches Some(t) && t@
                == "??? bro i aint giving you the same image"@,
            ImageRequest::Process => res is None,
        },
{
    match request {
        ImageRequest::NotAnImage => Some("please provide a valid image file!"),
        ImageRequest::NothingToDo => Some("??? bro i aint giving you the same image"),
        ImageRequest::Process => None,
    }
}

/// The name under which a processed image is sent back.
pub fn processed_image_name(filename: &str) -> (res: String)
    ensures
        res@ == "new!!!_"@ + filename@,
{
    let mut s = String::from_str("new!!!_");
    s.append(filename);
    s
}

/// The reply when processing an image failed.
pub fn image_failure_reply(error: &str) -> (res: String)
    ensures
        res@ == "kaBOOMM! "@ + error@,
{
    let mut s = String::from_str("kaBOOMM! ");
    s.append(error);
    s
}


/// What chrono writes, with `Display`, for the UTC time `millis` milliseconds
/// after the Unix epoch (`YYYY-MM-DD hh:mm:ss[.fff] UTC`); `None` when chrono
/// has no such time.
pub uninterp spec fn utc_time_text(millis: i64) -> Option<Seq<char>>;

/// Calls chrono's `DateTime::<Utc>::from_timestamp_millis` and writes the
/// time with its `Display`. The contract claims only that the text depends on
/// `millis` alone; the text itself is left to the name `utc_time_text`.
#[verifier::external_body]
fn utc_text_from_millis(millis: i64) -> (res: Option<String>)
    ensures
        match res {
            Some(t) => utc_time_text(millis) == Some(t@),
            None => utc_time_text(millis) is None,
        },
{
    match chrono::DateTime::<chrono::Utc>::from_timestamp_millis(millis) {
        Some(t) => Some(t.to_string()),
        None => None,
    }
}

/// Whole seconds since the epoch of a time given in milliseconds, rounded
/// down, as `DateTime::timestamp` gives them.
pub fn seconds_of_millis(millis: i64) -> (res: i64)
    ensures
        res == millis as int / 1000,
{
    if millis >= 0 {
        millis / 1000
    } else {
        let m: i64 = -(millis + 1);
        let q: i64 = m / 1000;
        assert(millis as int / 1000 == -q - 1) by (nonlinear_arith)
            requires
                m == -(millis + 1),
                m >= 0,
                q == m / 1000,
        ;
        -q - 1
    }
}

/// The reply of the age command: when the account was created, as text, and
/// as a Discord relative timestamp of the whole seconds since the epoch.
pub open spec fn age_text(name: Seq<char>, created_text: Seq<char>, created_millis: i64) -> Seq<char> {
    name + "'s account was created at "@ + created_text + " (<t:"@ + signed_decimal(
        created_millis as int / 1000,
    ) + ":R>)"@
}

/// The reply of the age command, given the creation time both as text and in
/// milliseconds since the epoch.
pub fn age_reply(name: &str, created_text: &str, created_millis: i64) -> (res: String)
    ensures
        res@ == age_text(name@, created_text@, created_millis),
{
    let mut s = String::from_str(name);
    s.append("'s account was created at ");
    s.append(created_text);
    s.append(" (<t:");
    push_signed(&mut s, seconds_of_millis(created_millis));
    s.append(":R>)");
    s
}

/// The reply of the age command for an account created `created_millis`
/// milliseconds after the epoch, with the time written by chrono in UTC;
/// `None` when chrono has no such time.
pub fn age_message(name: &str, created_millis: i64) -> (res: Option<String>)
    ensures
        match utc_time_text(created_millis) {
            Some(t) => res matches Some(r) && r@ == age_text(name@, t, created_millis),
            None => res is None,
        },
{
    match utc_text_from_millis(created_millis) {
        Some(t) => Some(age_reply(name, t.as_str(), created_millis)),
        None => None,
    }
}


/// The image command processes an attachment exactly when it declares an
/// `image/` content type and at least one of blur, flip and grayscale is asked
/// for, each one enough on its own; it refuses a non-image whatever is asked,
/// and answers that nothing was asked only for an image with no option given.
pub proof fn image_request_needs_an_image_and_one_option(
    content_type: Option<Seq<char>>,
    blur: bool,
    flip: bool,
    grayscale: bool,
)
    ensures
        (image_request_of(content_type, blur, flip, grayscale) == ImageRequest::Process) <==> (
        content_type is Some && content_type->0.take(6) == "image/"@ && 6 <= content_type->0.len()
            && (blur || flip || grayscale)),
        (image_request_of(content_type, blur, flip, grayscale) == ImageRequest::NotAnImage) <==> !(
        content_type is Some && content_type->0.take(6) == "image/"@ && 6 <= content_type->0.len()),
        (image_request_of(content_type, blur, flip, grayscale) == ImageRequest::NothingToDo) <==> (
        content_type is Some && content_type->0.take(6) == "image/"@ && 6 <= content_type->0.len()
            && !blur && !flip && !grayscale),
{
    reveal_strlit("image/");
}


/// The uptime clock reads back as the elapsed time: three fields of at least
/// two digits separated by colons, giving hours, then minutes and seconds
/// below 60, that add up to the elapsed seconds.
pub proof fn clock_reads_back(secs: nat)
    ensures
        exists|p: Seq<char>, q: Seq<char>, r: Seq<char>, h: nat, m: nat, sec: nat|
            #[trigger] clock_text(secs) == p + ":"@ + q + ":"@ + r && parse_unsigned(p, h)
                == Some(h) && parse_unsigned(q, 59) == Some(m) && parse_unsigned(r, 59) == Some(sec)
                && p.len() >= 2 && q.len() >= 2 && r.len() >= 2 && m < 60 && sec < 60 && h * 3600
                + m * 60 + sec == secs,
{
    clock_fields_add_up(secs);
    let h = secs / 3600;
    let m = (secs % 3600) / 60;
    let sec = secs % 60;
    two_digit_reads_back(h, h);
    two_digit_reads_back(m, 59);
    two_digit_reads_back(sec, 59);
    assert(clock_text(secs) == two_digit(h) + ":"@ + two_digit(m) + ":"@ + two_digit(sec));
}

/// The age reply names the creation time and a Discord timestamp of the
/// whole seconds: the seconds `t` written satisfy `t * 1000 <= millis <
/// t * 1000 + 1000`, and the text reads back as `t`.
pub proof fn age_text_rounds_down_to_seconds(name: Seq<char>, created_text: Seq<char>, millis: i64)
    ensures
        exists|t: int, digits: Seq<char>|
            #[trigger] age_text(name, created_text, millis) == name + "'s account was created at "@
                + created_text + " (<t:"@ + digits + ":R>)"@ && t * 1000 <= millis < t * 1000 + 1000
                && digits == signed_decimal(t) && (t >= 0 ==> parse_unsigned(digits, t as nat)
                == Some(t as nat)) && (t < 0 ==> digits[0] == '-' && parse_unsigned(
                digits.drop_first(),
                (-t) as nat,
            ) == Some((-t) as nat)),
{
    let t = millis as int / 1000;
    assert(t * 1000 <= millis < t * 1000 + 1000) by (nonlinear_arith)
        requires
            t == millis as int / 1000,
    ;
    signed_decimal_shape(t);
    if t >= 0 {
        parse_of_decimal(t as nat, t as nat);
    } else {
        parse_of_decimal((-t) as nat, (-t) as nat);
    }
    assert(age_text(name, created_text, millis) == name + "'s account was created at "@
        + created_text + " (<t:"@ + signed_decimal(t) + ":R>)"@);
}

} // verus!
