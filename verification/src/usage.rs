//! Antigravity pool quota: the Code Assist `retrieveUserQuota` call.
//!
//! `POST {base_url}/{API_VERSION}:retrieveUserQuota` with the account's OAuth
//! bearer and a `{"project": <project_id>}` body reports the subscription's
//! quota buckets, one per model, each with its own remaining fraction and its
//! own reset time. The call has to carry the Antigravity Hub `User-Agent`:
//! without it the same token and project are refused.

use vstd::prelude::*;
use vstd::string::StringExecFns;

use crate::json::{self, read_json, write_record, Json, JsonNumber, Leaf};
use crate::text::{self, first_chars, trim_trailing};

verus! {

/// The version segment of the Code Assist API.
pub const API_VERSION: &'static str = "v1internal";

/// How long the call may take, in seconds: a hung connection must not stall
/// the task that polls.
pub const USAGE_TIMEOUT_SECS: u64 = 10;

/// How much of a refusal's body an error quotes, in characters.
pub const MAX_DETAIL_CHARS: usize = 200;

/// One quota call, ready to be sent as a `POST` with a JSON body.
#[derive(Debug)]
pub struct UsageRequest {
    pub url: String,
    pub bearer: String,
    pub user_agent: String,
    pub body: String,
    pub timeout_secs: u64,
}

/// One model's quota.
#[derive(Debug)]
pub struct QuotaBucketSnapshot {
    /// The model that the bucket is for.
    pub label: String,
    /// How much is left, from 0 to 1.
    pub remaining: Option<JsonNumber>,
    /// When the bucket fills up again.
    pub reset_time: Option<String>,
}

/// What a bucket says.
pub ghost struct BucketView {
    pub label: Seq<char>,
    pub remaining: Option<JsonNumber>,
    pub reset_time: Option<Seq<char>>,
}

impl View for QuotaBucketSnapshot {
    type V = BucketView;

    open spec fn view(&self) -> BucketView {
        BucketView {
            label: self.label@,
            remaining: self.remaining,
            reset_time: match self.reset_time {
                Some(s) => Some(s@),
                None => None,
            },
        }
    }
}

/// Why a quota call gave no buckets.
#[derive(Debug)]
pub enum UsageError {
    /// The service refused the call: its status, and the start of its answer.
    RequestFailed { status: String, detail: String },
    /// The answer is no JSON: the words of the reader's error.
    InvalidResponse { detail: String },
    /// The answer carries no array of buckets.
    NoBuckets,
}

/// The address of the call under `base_url`.
pub open spec fn usage_url(base_url: Seq<char>) -> Seq<char> {
    text::trim_end_char(base_url, '/') + "/"@ + API_VERSION@ + ":retrieveUserQuota"@
}

/// The body of the call for a project.
pub open spec fn project_json(project_id: Seq<char>) -> json::JsonView {
    json::JsonView::Object(map!["project"@ => json::JsonView::Text(project_id)])
}

/// A status that reports success.
pub open spec fn is_success(status: u16) -> bool {
    200 <= status < 300
}

/// The text in the member `key` of `json`, where there is one.
pub open spec fn text_member(json: json::JsonView, key: Seq<char>) -> Option<Seq<char>> {
    match json.member(key) {
        Some(json::JsonView::Text(s)) => Some(s),
        _ => None,
    }
}

/// The number in the member `key` of `json`, where there is one.
pub open spec fn number_member(json: json::JsonView, key: Seq<char>) -> Option<JsonNumber> {
    match json.member(key) {
        Some(json::JsonView::Number(n)) => Some(n),
        _ => None,
    }
}

/// The bucket that one entry of the answer stands for.
pub open spec fn bucket_of(entry: json::JsonView) -> BucketView {
    BucketView {
        label: match text_member(entry, "modelId"@) {
            Some(s) => s,
            None => "unknown"@,
        },
        remaining: number_member(entry, "remainingFraction"@),
        reset_time: text_member(entry, "resetTime"@),
    }
}

/// The buckets of an answer, one for each entry of its `buckets` array and in
/// that order. None where the answer has no such array.
pub open spec fn usage_buckets(answer: json::JsonView) -> Option<Seq<BucketView>> {
    match answer.member("buckets"@) {
        Some(json::JsonView::Array(entries)) => Some(
            entries.map_values(|entry: json::JsonView| bucket_of(entry)),
        ),
        _ => None,
    }
}

/// What each of `buckets` says.
pub open spec fn bucket_views(buckets: Seq<QuotaBucketSnapshot>) -> Seq<BucketView> {
    buckets.map_values(|bucket: QuotaBucketSnapshot| bucket@)
}

/// What is left in each bucket, where it is said, is a finite number.
pub open spec fn all_sound(buckets: Seq<BucketView>) -> bool {
    forall|i: int|
        0 <= i < buckets.len() ==> ((#[trigger] buckets[i]).remaining matches Some(n)
            ==> json::is_sound_number(n))
}

/// `r` is what the answer `reading` comes to.
pub open spec fn is_usage_of(
    r: Result<Vec<QuotaBucketSnapshot>, UsageError>,
    reading: json::JsonReading,
) -> bool {
    match reading {
        json::JsonReading::Error(words) => r matches Err(UsageError::InvalidResponse { detail })
            && detail@ == words,
        json::JsonReading::Value(answer) => match usage_buckets(answer) {
            Some(views) => r matches Ok(buckets) && bucket_views(buckets@) == views,
            None => r matches Err(UsageError::NoBuckets),
        },
    }
}

/// `error` reports a refusal with these words for its status and this answer.
pub open spec fn is_refusal(error: UsageError, words: Seq<char>, answer: Seq<char>) -> bool {
    &&& error matches UsageError::RequestFailed { status, detail }
    &&& status@ == words
    &&& detail@ == text::at_most(answer, MAX_DETAIL_CHARS as nat)
}

/// The words of an error.
pub open spec fn usage_message(error: UsageError) -> Seq<char> {
    match error {
        UsageError::RequestFailed { status, detail } => "usage request failed ("@ + status@
            + "): "@ + detail@,
        UsageError::InvalidResponse { detail } => "invalid usage response: "@ + detail@,
        UsageError::NoBuckets => "usage response carries no recognizable quota buckets"@,
    }
}

/// The decimal digit of `n`, from 0 to 9.
pub open spec fn digit(n: int) -> char {
    ('0' as int + n) as char
}

/// The three decimal digits of a status.
pub open spec fn status_digits(status: u16) -> Seq<char> {
    seq![
        digit(status as int / 100),
        digit(status as int / 10 % 10),
        digit(status as int % 10),
    ]
}

/// The words that `reqwest::StatusCode` has for a status.
pub uninterp spec fn status_words(status: u16) -> Seq<char>;

/// The text of a status: `reqwest::StatusCode::from_u16`, which takes 100 to
/// 999, written with its `Display`. That is the three digits, a space and the
/// reason phrase; the phrase comes from a table that is not restated here.
#[verifier::external_body]
fn status_text(status: u16) -> (text: String)
    requires
        100 <= status <= 999,
    ensures
        text@ == status_words(status),
        status_digits(status).push(' ').is_prefix_of(text@),
{
    reqwest::StatusCode::from_u16(status).unwrap().to_string()
}

/// The call that asks for an account's quota. `base_url` is the provider's
/// base, `access_token` the account's bearer, `project_id` its Code Assist
/// project and `user_agent` the Antigravity Hub's.
pub fn usage_request(
    base_url: &str,
    access_token: &str,
    project_id: &str,
    user_agent: &str,
) -> (r: UsageRequest)
    ensures
        r.url@ == usage_url(base_url@),
        r.bearer@ == access_token@,
        r.user_agent@ == user_agent@,
        r.body@ == json::json_written(project_json(project_id@)),
        json::json_read(r.body@) == json::JsonReading::Value(project_json(project_id@)),
        json::json_read(r.body@) matches json::JsonReading::Value(json::JsonView::Object(members))
            && members.dom() == set!["project"@] && members["project"@] == json::JsonView::Text(
            project_id@,
        ),
        r.timeout_secs == USAGE_TIMEOUT_SECS,
        r.timeout_secs == 10,
{
    let mut url = trim_trailing(base_url, '/').to_owned();
    url.append("/");
    url.append(API_VERSION);
    url.append(":retrieveUserQuota");
    let mut members: Vec<(String, Leaf)> = Vec::new();
    members.push(("project".to_owned(), Leaf::Text(project_id.to_owned())));
    proof {
        reveal_with_fuel(json::record_members, 2);
        assert(members@.drop_last() == Seq::<(String, Leaf)>::empty());
        assert(json::JsonView::Object(json::record_members(members@)) == project_json(project_id@)) by {
            assert(json::record_members(members@) =~= map!["project"@ => json::JsonView::Text(project_id@)]);
        }
    }
    proof {
        body_is_the_project(project_id@, project_id@);
    }
    UsageRequest {
        url,
        bearer: access_token.to_owned(),
        user_agent: user_agent.to_owned(),
        body: write_record(members),
        timeout_secs: USAGE_TIMEOUT_SECS,
    }
}

fn read_text_member(json: &Json, key: &str) -> (r: Option<String>)
    ensures
        match r {
            Some(s) => text_member(json@, key@) == Some(s@),
            None => text_member(json@, key@) is None,
        },
{
    match json.member(key) {
        Some(Json::Text(s)) => Some(s.clone()),
        _ => None,
    }
}

fn read_number_member(json: &Json, key: &str) -> (r: Option<JsonNumber>)
    ensures
        r == number_member(json@, key@),
{
    match json.member(key) {
        Some(Json::Number(n)) => Some(*n),
        _ => None,
    }
}

fn read_bucket(entry: &Json) -> (r: QuotaBucketSnapshot)
    ensures
        r@ == bucket_of(entry@),
{
    QuotaBucketSnapshot {
        label: match read_text_member(entry, "modelId") {
            Some(s) => s,
            None => "unknown".to_owned(),
        },
        remaining: read_number_member(entry, "remainingFraction"),
        reset_time: read_text_member(entry, "resetTime"),
    }
}

/// Reads the answer of the call into quota buckets. An answer without a
/// `buckets` array is refused, so that an unrelated one is never taken for
/// quota; an empty array is no error.
pub fn parse_usage(value: &Json) -> (r: Result<Vec<QuotaBucketSnapshot>, UsageError>)
    ensures
        is_usage_of(r, json::JsonReading::Value(value@)),
        value@.member("buckets"@) matches Some(json::JsonView::Array(entries)) ==> (r matches Ok(
            buckets,
        ) && buckets@.len() == entries.len()),
{
    let entries = match value.member("buckets") {
        Some(buckets) => match buckets.elements() {
            Some(entries) => entries,
            None => return Err(UsageError::NoBuckets),
        },
        None => return Err(UsageError::NoBuckets),
    };
    let ghost views = value@.member("buckets"@)->0->Array_0;
    let mut buckets: Vec<QuotaBucketSnapshot> = Vec::new();
    let mut i: usize = 0;
    while i < entries.len()
        invariant
            i == buckets@.len() <= entries@.len() == views.len(),
            forall|k: int| 0 <= k < views.len() ==> views[k] == (#[trigger] entries@[k])@,
            forall|k: int| 0 <= k < i ==> (#[trigger] buckets@[k])@ == bucket_of(views[k]),
        decreases entries@.len() - i,
    {
        buckets.push(read_bucket(&entries[i]));
        i = i + 1;
    }
    assert(bucket_views(buckets@) =~= views.map_values(|entry: json::JsonView| bucket_of(entry)));
    Ok(buckets)
}

/// What an answer that was read, or could not be read, comes to.
pub fn usage_of_reading(reading: Result<Json, String>) -> (r: Result<
    Vec<QuotaBucketSnapshot>,
    UsageError,
>)
    ensures
        match reading {
            Ok(json) => is_usage_of(r, json::JsonReading::Value(json@)),
            Err(words) => is_usage_of(r, json::JsonReading::Error(words@)),
        },
{
    match reading {
        Ok(json) => parse_usage(&json),
        Err(words) => Err(UsageError::InvalidResponse { detail: words }),
    }
}

/// The error for a call that was refused with the status `words` and `answer`
/// for a body, of which it quotes the start.
pub fn refusal(words: String, answer: &str) -> (error: UsageError)
    ensures
        is_refusal(error, words@, answer@),
{
    UsageError::RequestFailed {
        status: words,
        detail: first_chars(answer, MAX_DETAIL_CHARS).to_owned(),
    }
}

/// What the service's answer to the call comes to: buckets, where the status
/// reports success and the body is JSON with an array of them. What is left in
/// a bucket is a finite number.
pub fn usage_of_response(status: u16, body: &str) -> (r: Result<
    Vec<QuotaBucketSnapshot>,
    UsageError,
>)
    requires
        100 <= status <= 999,
    ensures
        is_success(status) ==> is_usage_of(r, json::json_read(body@)),
        r matches Ok(buckets) ==> all_sound(bucket_views(buckets@)),
        r is Ok ==> status as int / 100 == 2,
        !is_success(status) ==> {
            &&& r matches Err(error)
            &&& is_refusal(error, status_words(status), body@)
            &&& error matches UsageError::RequestFailed { status: words, .. }
            &&& status_digits(status).push(' ').is_prefix_of(words@)
        },
{
    if 200 <= status && status < 300 {
        let reading = read_json(body);
        proof {
            if reading is Ok {
                sound_answer_has_sound_buckets(reading->Ok_0@);
            }
        }
        usage_of_reading(reading)
    } else {
        Err(refusal(status_text(status), body))
    }
}

impl UsageError {
    /// The words of the error.
    pub fn message(&self) -> (r: String)
        ensures
            r@ == usage_message(*self),
    {
        match self {
            UsageError::RequestFailed { status, detail } => {
                let mut words = "usage request failed (".to_owned();
                words.append(status.as_str());
                words.append("): ");
                words.append(detail.as_str());
                words
            },
            UsageError::InvalidResponse { detail } => {
                let mut words = "invalid usage response: ".to_owned();
                words.append(detail.as_str());
                words
            },
            UsageError::NoBuckets => "usage response carries no recognizable quota buckets".to_owned(),
        }
    }
}

/// Slashes at the end of the base do not matter: the address has one slash
/// between the base and the rest.
pub proof fn url_ignores_trailing_slashes(base_url: Seq<char>, slashes: Seq<char>)
    requires
        forall|i: int| 0 <= i < slashes.len() ==> #[trigger] slashes[i] == '/',
    ensures
        usage_url(base_url + slashes) == usage_url(base_url),
        base_url.len() > 0 && base_url.last() != '/' ==> usage_url(base_url) == base_url + "/"@
            + API_VERSION@ + ":retrieveUserQuota"@,
{
    text::trim_end_char_ignores_run(base_url, '/', slashes);
}

/// The buckets rest on the `buckets` member alone, whatever else the answer
/// carries.
pub proof fn other_members_do_not_matter(
    members: Map<Seq<char>, json::JsonView>,
    key: Seq<char>,
    value: json::JsonView,
)
    requires
        key != "buckets"@,
    ensures
        usage_buckets(json::JsonView::Object(members.insert(key, value))) == usage_buckets(
            json::JsonView::Object(members),
        ),
{
}

/// A bucket rests on three members of its entry alone, whatever else the entry
/// carries.
pub proof fn other_entry_members_do_not_matter(
    members: Map<Seq<char>, json::JsonView>,
    key: Seq<char>,
    value: json::JsonView,
)
    requires
        key != "modelId"@,
        key != "remainingFraction"@,
        key != "resetTime"@,
    ensures
        bucket_of(json::JsonView::Object(members.insert(key, value))) == bucket_of(
            json::JsonView::Object(members),
        ),
{
}

/// Where every number of an answer is finite, so is what is left in each of
/// its buckets.
pub proof fn sound_answer_has_sound_buckets(answer: json::JsonView)
    requires
        json::has_sound_numbers(answer),
    ensures
        usage_buckets(answer) matches Some(buckets) ==> all_sound(buckets),
{
    match answer.member("buckets"@) {
        Some(json::JsonView::Array(entries)) => {
            let buckets = usage_buckets(answer)->0;
            assert(json::has_sound_numbers(json::JsonView::Array(entries)));
            assert forall|i: int| 0 <= i < buckets.len() implies (
            (#[trigger] buckets[i]).remaining matches Some(n) ==> json::is_sound_number(n)) by {
                assert(buckets[i] == bucket_of(entries[i]));
                assert(json::has_sound_numbers(entries[i]));
                match entries[i].member("remainingFraction"@) {
                    Some(value) => {
                        assert(json::has_sound_numbers(value));
                    },
                    None => {},
                }
            }
        },
        _ => {},
    }
}

/// An answer with an empty array of buckets is an answer: it has no buckets,
/// and is no error.
pub proof fn no_entries_is_no_error(
    answer: json::JsonView,
    r: Result<Vec<QuotaBucketSnapshot>, UsageError>,
)
    requires
        answer.member("buckets"@) == Some(json::JsonView::Array(Seq::empty())),
        is_usage_of(r, json::JsonReading::Value(answer)),
    ensures
        r matches Ok(buckets) && buckets@.len() == 0,
{
    let buckets = r->Ok_0;
    assert(bucket_views(buckets@).len() == buckets@.len());
}

/// The words of a refusal name the status by its digits, and quote no more of
/// the answer than they may.
pub proof fn refusal_names_the_status(
    error: UsageError,
    status: u16,
    words: Seq<char>,
    answer: Seq<char>,
)
    requires
        is_refusal(error, words, answer),
        status_digits(status).push(' ').is_prefix_of(words),
    ensures
        ("usage request failed ("@ + status_digits(status)).is_prefix_of(usage_message(error)),
        usage_message(error).len() <= "usage request failed ("@.len() + words.len() + "): "@.len()
            + MAX_DETAIL_CHARS,
{
    let start = "usage request failed ("@;
    let digits = status_digits(status);
    let message = usage_message(error);
    assert forall|i: int| 0 <= i < (start + digits).len() implies (start + digits)[i]
        == message[i] by {
        if i >= start.len() {
            assert(digits.push(' ')[i - start.len()] == words[i - start.len()]);
        }
    }
}

/// An answer with an array of `n` entries has exactly `n` buckets, however
/// many those are. The bucket in each place is labelled with the text that the
/// entry in that place has for its model, or is `unknown`; and it has that
/// entry's number for what is left, and that entry's text for its reset.
pub proof fn every_entry_has_its_bucket(
    members: Map<Seq<char>, json::JsonView>,
    entries: Seq<json::JsonView>,
    r: Result<Vec<QuotaBucketSnapshot>, UsageError>,
    k: int,
)
    requires
        members.dom().contains("buckets"@),
        members["buckets"@] == json::JsonView::Array(entries),
        is_usage_of(r, json::JsonReading::Value(json::JsonView::Object(members))),
    ensures
        r is Ok,
        r->Ok_0@.len() == entries.len(),
        0 <= k < entries.len() ==> ({
            let bucket = r->Ok_0@[k];
            match entries[k] {
                json::JsonView::Object(entry) => {
                    &&& bucket.label@ == if entry.dom().contains("modelId"@)
                        && entry["modelId"@] is Text {
                        entry["modelId"@]->Text_0
                    } else {
                        "unknown"@
                    }
                    &&& bucket.remaining == if entry.dom().contains("remainingFraction"@)
                        && entry["remainingFraction"@] is Number {
                        Some(entry["remainingFraction"@]->Number_0)
                    } else {
                        None
                    }
                    &&& match bucket.reset_time {
                        Some(s) => entry.dom().contains("resetTime"@) && entry["resetTime"@]
                            == json::JsonView::Text(s@),
                        None => !(entry.dom().contains("resetTime"@) && entry["resetTime"@] is Text),
                    }
                },
                _ => bucket.label@ == "unknown"@ && bucket.remaining is None
                    && bucket.reset_time is None,
            }
        }),
{
    let answer = json::JsonView::Object(members);
    assert(answer.member("buckets"@) == Some(json::JsonView::Array(entries)));
    let buckets = r->Ok_0@;
    assert(bucket_views(buckets).len() == buckets.len());
    if 0 <= k < entries.len() {
        assert(bucket_views(buckets)[k] == buckets[k]@);
        assert(bucket_views(buckets)[k] == bucket_of(entries[k]));
    }
}

/// An answer that is no object, has no `buckets`, or has something other than
/// an array there, is refused for that.
pub proof fn answers_without_buckets_are_refused(
    answer: json::JsonView,
    r: Result<Vec<QuotaBucketSnapshot>, UsageError>,
)
    requires
        is_usage_of(r, json::JsonReading::Value(answer)),
        answer matches json::JsonView::Object(members) ==> !members.dom().contains("buckets"@) || !(
        members["buckets"@] is Array),
    ensures
        r matches Err(UsageError::NoBuckets),
{
}

/// An answer that is no JSON is refused with the reader's own words in full.
pub proof fn answers_that_are_no_json_are_refused(
    words: Seq<char>,
    r: Result<Vec<QuotaBucketSnapshot>, UsageError>,
)
    requires
        is_usage_of(r, json::JsonReading::Error(words)),
    ensures
        r matches Err(UsageError::InvalidResponse { detail }) && detail@ == words,
{
}

/// Answers with more entries have the buckets of those with fewer first: an
/// entry put at the end adds one bucket there, and changes no other.
pub proof fn one_more_entry_is_one_more_bucket(
    members: Map<Seq<char>, json::JsonView>,
    entries: Seq<json::JsonView>,
    entry: json::JsonView,
)
    requires
        members.dom().contains("buckets"@),
        members["buckets"@] == json::JsonView::Array(entries),
    ensures
        ({
            let longer = members.insert("buckets"@, json::JsonView::Array(entries.push(entry)));
            let before = usage_buckets(json::JsonView::Object(members));
            let after = usage_buckets(json::JsonView::Object(longer));
            &&& before is Some
            &&& after is Some
            &&& before->0.len() == entries.len()
            &&& after->0.len() == entries.len() + 1
            &&& forall|i: int|
                0 <= i < entries.len() ==> #[trigger] after->0[i] == before->0[i]
        }),
{
}

/// What a bucket says is what its fields hold, one bucket for each.
pub proof fn buckets_say_their_fields(buckets: Seq<QuotaBucketSnapshot>, i: int)
    requires
        0 <= i < buckets.len(),
    ensures
        bucket_views(buckets).len() == buckets.len(),
        bucket_views(buckets)[i].label == buckets[i].label@,
        bucket_views(buckets)[i].remaining == buckets[i].remaining,
        bucket_views(buckets)[i].reset_time is Some == buckets[i].reset_time is Some,
        buckets[i].reset_time matches Some(s) ==> bucket_views(buckets)[i].reset_time == Some(s@),
{
}

/// Where the buckets are sound, each number left is finite.
pub proof fn sound_buckets_are_all_finite(buckets: Seq<QuotaBucketSnapshot>, i: int)
    requires
        all_sound(bucket_views(buckets)),
        0 <= i < buckets.len(),
    ensures
        buckets[i].remaining matches Some(n) ==> json::is_sound_number(n),
{
    assert(bucket_views(buckets)[i] == buckets[i]@);
}

/// The body of the call has one member, the project, and that is the project
/// in full. Two projects never share a body.
pub proof fn body_is_the_project(project_id: Seq<char>, other: Seq<char>)
    ensures
        project_json(project_id) matches json::JsonView::Object(members) && members.dom()
            == set!["project"@] && members["project"@] == json::JsonView::Text(project_id),
        project_json(project_id) == project_json(other) ==> project_id == other,
{
    let members = project_json(project_id)->Object_0;
    let other_members = project_json(other)->Object_0;
    assert(members.dom() =~= set!["project"@]);
    assert(members["project"@] == json::JsonView::Text(project_id));
    assert(other_members["project"@] == json::JsonView::Text(other));
}

/// The address is the base without the slashes that it ends in, and then the
/// path of the call. Nothing else of the base is lost.
pub proof fn address_is_base_and_path(base_url: Seq<char>, slashes: Seq<char>)
    requires
        base_url.len() > 0 ==> base_url[base_url.len() - 1] != '/',
        forall|i: int| 0 <= i < slashes.len() ==> #[trigger] slashes[i] == '/',
    ensures
        usage_url(base_url + slashes) == base_url + "/v1internal:retrieveUserQuota"@,
{
    reveal_strlit("/");
    reveal_strlit("v1internal");
    reveal_strlit(":retrieveUserQuota");
    reveal_strlit("/v1internal:retrieveUserQuota");
    text::trim_end_char_ignores_run(base_url, '/', slashes);
    assert(text::trim_end_char(base_url, '/') == base_url);
    let path = "/"@ + "v1internal"@ + ":retrieveUserQuota"@;
    assert(path =~= "/v1internal:retrieveUserQuota"@);
    assert(usage_url(base_url) =~= base_url + path);
}

/// A call succeeded exactly where the first digit of its status is a two.
pub proof fn success_is_a_status_of_the_two_hundreds(status: u16)
    ensures
        is_success(status) <==> status as int / 100 == 2,
{
}

/// The digits of a status are decimal digits, and read as a number they are
/// the status.
pub proof fn status_digits_read_as_the_status(status: u16)
    requires
        100 <= status <= 999,
    ensures
        ({
            let digits = status_digits(status);
            &&& digits.len() == 3
            &&& forall|i: int| 0 <= i < 3 ==> 48 <= #[trigger] digits[i] as int <= 57
            &&& (digits[0] as int - 48) * 100 + (digits[1] as int - 48) * 10 + (digits[2] as int
                - 48) == status
        }),
{
}

/// A refusal has the status's words in full, and quotes the start of the
/// answer: all of it up to two hundred characters, and just those of a longer
/// one.
pub proof fn refusal_quotes_the_answer(error: UsageError, words: Seq<char>, answer: Seq<char>)
    requires
        is_refusal(error, words, answer),
    ensures
        error matches UsageError::RequestFailed { status, detail } && status@ == words
            && detail@.len() == (if answer.len() < 200 {
            answer.len()
        } else {
            200
        }) && forall|i: int| 0 <= i < detail@.len() ==> #[trigger] detail@[i] == answer[i],
{
    text::at_most_is_the_start(answer, 200);
}

/// The words of each error: where the call failed, and in full what the error
/// holds.
pub proof fn usage_errors_say_what_is_wrong(status: String, detail: String)
    ensures
        usage_message(UsageError::RequestFailed { status, detail }) == "usage request failed ("@
            + status@ + "): "@ + detail@,
        usage_message(UsageError::InvalidResponse { detail }) == "invalid usage response: "@
            + detail@,
        usage_message(UsageError::NoBuckets)
            == "usage response carries no recognizable quota buckets"@,
{
}

} // verus!
