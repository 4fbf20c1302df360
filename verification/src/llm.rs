//! Settings, addresses and answers of the language-model service that
//! enriches what is known of a sender.

use vstd::prelude::*;
use crate::sync::envelope::ExJsonError;
use crate::text::{
    find_char, first_place, from_chars, is_white_space, join_chars, lemma_first_place,
    lemma_past_last_place, lemma_trimmed, lemma_without_closing, lemma_without_leading,
    len_without_trailing, matches_at, occurs_at, past_last_place, rfind_char, strip_closing,
    strip_leading, sub_chars, to_chars, trim_chars, trimmed, without_closing, without_leading,
    without_trailing,
};

verus! {

/// A model that the service offers.
#[derive(Debug)]
pub struct AIModel {
    pub id: String,
}

/// The settings of the service, as stored.
#[derive(Debug)]
pub struct AiSettings {
    pub api_key: String,
    pub base_url: String,
    pub model: String,
}

/// Why the service could not be asked, or why its answer is of no use.
#[derive(Clone, Copy, Debug, PartialEq, Eq, Structural)]
pub enum AiError {
    /// No key or no model is set.
    NotConfigured,
    /// The answer is not JSON.
    InvalidJson,
    /// The answer lacks the key at this place of [`required_keys`].
    MissingKey { index: usize },
}

/// What to do after an attempt to ask the service has failed.
#[derive(Clone, Copy, Debug, PartialEq, Eq, Structural)]
pub enum RetryStep {
    /// Wait this many milliseconds, then ask again.
    RetryAfter { millis: u64 },
    /// Give up with the error of the last attempt.
    GiveUp,
}

/// The number of times the service is asked before giving up.
pub const MAX_ATTEMPTS: u32 = 2;

/// The text that a JSON string stands for, `None` where the text is not
/// one JSON string.
pub uninterp spec fn json_string_value(text: Seq<char>) -> Option<Seq<char>>;

/// Whether a JSON text has an entry under a key at its top level, `None`
/// where the text is not JSON.
pub uninterp spec fn json_has_key(text: Seq<char>, key: Seq<char>) -> Option<bool>;

/// Calls `serde_json::from_str` for a `String`. Trusted: the result is a
/// function of the text alone.
#[verifier::external_body]
fn parse_json_string(text: &str) -> (out: Result<String, serde_json::Error>)
    ensures
        out matches Ok(value) ==> json_string_value(text@) == Some(value@),
        out is Err ==> json_string_value(text@) is None,
{
    serde_json::from_str::<String>(text)
}

/// Calls `serde_json::from_str` for a `Value` and `Value::get` with the
/// key on what it gives. Trusted: the result is a function of text and
/// key alone.
#[verifier::external_body]
fn parse_json_key(text: &str, key: &str) -> (out: Result<bool, serde_json::Error>)
    ensures
        out matches Ok(present) ==> json_has_key(text@, key@) == Some(present),
        out is Err ==> json_has_key(text@, key@) is None,
{
    match serde_json::from_str::<serde_json::Value>(text) {
        Ok(value) => Ok(value.get(key).is_some()),
        Err(e) => Err(e),
    }
}

/// A stored value as it is used: what it stands for where it is a JSON
/// string, else as it is.
pub open spec fn unquoted(value: Seq<char>) -> Seq<char> {
    match json_string_value(value) {
        Some(inner) => inner,
        None => value,
    }
}

/// Reads a stored value.
pub fn unquote(value: String) -> (plain: String)
    ensures
        plain@ == unquoted(value@),
{
    match parse_json_string(value.as_str()) {
        Ok(inner) => inner,
        Err(_) => value,
    }
}

/// The address of the service that is used where none is set.
pub open spec fn default_base_url() -> Seq<char> {
    "https://api.openai.com/v1"@
}

/// What the settings hold.
pub struct AiSettingsView {
    pub api_key: Seq<char>,
    pub base_url: Seq<char>,
    pub model: Seq<char>,
}

impl View for AiSettings {
    type V = AiSettingsView;

    open spec fn view(&self) -> AiSettingsView {
        AiSettingsView { api_key: self.api_key@, base_url: self.base_url@, model: self.model@ }
    }
}

impl AiSettingsView {
    /// The settings to begin with: no key, no model, the default address.
    pub open spec fn initial() -> AiSettingsView {
        AiSettingsView { api_key: Seq::empty(), base_url: default_base_url(), model: Seq::empty() }
    }

    /// The settings after a stored row was read.
    pub open spec fn with_row(self, key: Seq<char>, value: Seq<char>) -> AiSettingsView {
        if key == "aiApiKey"@ {
            AiSettingsView { api_key: unquoted(value), ..self }
        } else if key == "aiBaseUrl"@ {
            AiSettingsView { base_url: unquoted(value), ..self }
        } else if key == "aiModel"@ {
            AiSettingsView { model: unquoted(value), ..self }
        } else {
            self
        }
    }

    /// The settings after stored rows were read, one after the other.
    pub open spec fn with_rows(self, rows: Seq<(Seq<char>, Seq<char>)>) -> AiSettingsView
        decreases rows.len(),
    {
        if rows.len() == 0 {
            self
        } else {
            self.with_rows(rows.drop_last()).with_row(rows.last().0, rows.last().1)
        }
    }

    /// Whether a key and a model are set.
    pub open spec fn configured(self) -> bool {
        self.api_key.len() > 0 && self.model.len() > 0
    }
}

/// What each stored row holds.
pub open spec fn row_views(rows: Seq<(String, String)>) -> Seq<(Seq<char>, Seq<char>)> {
    Seq::new(rows.len(), |i: int| (rows[i].0@, rows[i].1@))
}

impl AiSettings {
    /// Reads the settings from the rows in which they are stored. A later
    /// row for a setting replaces an earlier one.
    pub fn from_rows(rows: &Vec<(String, String)>) -> (settings: AiSettings)
        ensures
            settings@ == AiSettingsView::initial().with_rows(row_views(rows@)),
    {
        let mut settings = AiSettings {
            api_key: String::new(),
            base_url: "https://api.openai.com/v1".to_owned(),
            model: String::new(),
        };
        let mut i: usize = 0;
        while i < rows.len()
            invariant
                i <= rows.len(),
                settings@ == AiSettingsView::initial().with_rows(row_views(rows@).take(i as int)),
            decreases rows.len() - i,
        {
            proof {
                let upto = row_views(rows@).take(i + 1);
                assert(upto.drop_last() == row_views(rows@).take(i as int));
                assert(upto.last() == (rows[i as int].0@, rows[i as int].1@));
            }
            let key = &rows[i].0;
            let value = unquote(rows[i].1.clone());
            if *key == "aiApiKey".to_owned() {
                settings.api_key = value;
            } else if *key == "aiBaseUrl".to_owned() {
                settings.base_url = value;
            } else if *key == "aiModel".to_owned() {
                settings.model = value;
            }
            i = i + 1;
        }
        assert(row_views(rows@).take(rows.len() as int) == row_views(rows@));
        settings
    }

    /// Whether the service can be asked.
    pub fn check_configured(&self) -> (out: Result<(), AiError>)
        ensures
            out == if self@.configured() {
                Ok::<(), AiError>(())
            } else {
                Err::<(), AiError>(AiError::NotConfigured)
            },
    {
        if self.api_key.as_str().unicode_len() == 0 || self.model.as_str().unicode_len() == 0 {
            Err(AiError::NotConfigured)
        } else {
            Ok(())
        }
    }
}

/// The address at which the models of a service are listed: the base
/// address where it ends in `/models` already, else the base address
/// without the slashes at its end, and `/models`.
pub open spec fn models_url_spec(base_url: Seq<char>) -> Seq<char> {
    if occurs_at(base_url, "/models"@, base_url.len() - "/models"@.len()) {
        base_url
    } else {
        without_trailing(base_url, '/') + "/models"@
    }
}

/// The address at which a service takes chat requests: the base address
/// without the slashes at its end, and `/chat/completions`.
pub open spec fn chat_url_spec(base_url: Seq<char>) -> Seq<char> {
    without_trailing(base_url, '/') + "/chat/completions"@
}

/// The address at which the models of a service are listed.
pub fn models_url(base_url: &str) -> (url: String)
    ensures
        url@ == models_url_spec(base_url@),
{
    let base = to_chars(base_url);
    let suffix = to_chars("/models");
    let ends = suffix.len() <= base.len() && matches_at(&base, &suffix, base.len() - suffix.len());
    if ends {
        from_chars(&base)
    } else {
        let kept = sub_chars(&base, 0, len_without_trailing(&base, '/'));
        from_chars(&join_chars(&kept, &suffix))
    }
}

/// The address at which a service takes chat requests.
pub fn chat_completions_url(base_url: &str) -> (url: String)
    ensures
        url@ == chat_url_spec(base_url@),
{
    let base = to_chars(base_url);
    let kept = sub_chars(&base, 0, len_without_trailing(&base, '/'));
    from_chars(&join_chars(&kept, &to_chars("/chat/completions")))
}

/// The JSON object in an answer of the service. White space around the
/// answer is set aside. Where a `{` comes before the last `}`, the
/// object is what stands from the first `{` to the last `}`. Else the
/// answer is taken without the code fences around it: every
/// `` ```json `` and then every `` ``` `` at its start, every `` ``` ``
/// at its end, and the white space that this leaves around it.
pub open spec fn extract_json_spec(answer: Seq<char>) -> Seq<char> {
    let text = trimmed(answer);
    let open = first_place(text, '{');
    let close = past_last_place(text, '}');
    if open < close {
        text.subrange(open, close)
    } else {
        trimmed(
            without_closing(
                without_leading(without_leading(text, "```json"@), "```"@),
                "```"@,
            ),
        )
    }
}

/// What is taken out of an answer is a part of the answer without the
/// white space around it, and neither begins nor ends with white space.
/// Where a `{` comes before the last `}`, it begins with the first and
/// ends with the second.
pub proof fn lemma_extracted_is_trimmed(answer: Seq<char>)
    ensures
        ({
            let json = extract_json_spec(answer);
            let text = trimmed(answer);
            &&& json.len() <= text.len()
            &&& json.len() > 0 ==> !is_white_space(json[0]) && !is_white_space(json.last())
            &&& first_place(text, '{') < past_last_place(text, '}') ==> json.len() >= 2 && json[0]
                == '{' && json.last() == '}' && json == text.subrange(
                first_place(text, '{'),
                past_last_place(text, '}'),
            )
        }),
{
    let text = trimmed(answer);
    let open = first_place(text, '{');
    let close = past_last_place(text, '}');
    lemma_first_place(text, '{');
    lemma_past_last_place(text, '}');
    if open < close {
        let json = text.subrange(open, close);
        assert(json[0] == text[open]);
        assert(json.last() == text[close - 1]);
        assert(!is_white_space('{') && !is_white_space('}'));
    } else {
        let a = without_leading(text, "```json"@);
        lemma_without_leading(text, "```json"@);
        let b = without_leading(a, "```"@);
        lemma_without_leading(a, "```"@);
        let c = without_closing(b, "```"@);
        lemma_without_closing(b, "```"@);
        lemma_trimmed(c);
    }
}

/// Takes the JSON object out of an answer of the service.
pub fn extract_json(s: &str) -> (json: String)
    ensures
        json@ == extract_json_spec(s@),
        json@.len() <= trimmed(s@).len(),
        json@.len() > 0 ==> !is_white_space(json@[0]) && !is_white_space(json@.last()),
{
    proof {
        lemma_extracted_is_trimmed(s@);
    }
    let answer = to_chars(s);
    let text = trim_chars(&answer);
    let open = find_char(&text, '{');
    let close = rfind_char(&text, '}');
    proof {
        lemma_past_last_place(text@, '}');
    }
    if open < close {
        from_chars(&sub_chars(&text, open, close))
    } else {
        let fence = to_chars("```");
        let unfenced = strip_leading(&strip_leading(&text, &to_chars("```json")), &fence);
        from_chars(&trim_chars(&strip_closing(&unfenced, &fence)))
    }
}

/// The keys that an answer about a sender must have.
pub open spec fn required_keys() -> Seq<Seq<char>> {
    seq![
        "name"@,
        "job_title"@,
        "company"@,
        "is_personal_email"@,
        "is_automated_mailer"@,
    ]
}

/// What checking an answer about a sender gives: the answer must be
/// JSON and have each of the required keys; the first that is missing is
/// named.
pub open spec fn checked_answer(json: Seq<char>, upto: int) -> Result<(), AiError>
    decreases upto,
{
    if upto <= 0 {
        Ok(())
    } else {
        match checked_answer(json, upto - 1) {
            Err(e) => Err(e),
            Ok(_) => match json_has_key(json, required_keys()[upto - 1]) {
                None => Err(AiError::InvalidJson),
                Some(false) => Err(AiError::MissingKey { index: (upto - 1) as usize }),
                Some(true) => Ok(()),
            },
        }
    }
}

/// The required keys, in the order in which they are looked up.
pub fn required_key_list() -> (keys: Vec<String>)
    ensures
        keys@.len() == 5,
        forall|i: int| 0 <= i < 5 ==> (#[trigger] keys@[i])@ == required_keys()[i],
{
    let mut keys: Vec<String> = Vec::new();
    keys.push("name".to_owned());
    keys.push("job_title".to_owned());
    keys.push("company".to_owned());
    keys.push("is_personal_email".to_owned());
    keys.push("is_automated_mailer".to_owned());
    keys
}

impl AiError {
    /// The words for the error. A missing key is named.
    pub open spec fn message_spec(self) -> Seq<char> {
        match self {
            AiError::NotConfigured => "AI API Key or Model not configured"@,
            AiError::InvalidJson => "Failed to parse JSON"@,
            AiError::MissingKey { index } => if index < required_keys().len() {
                "Missing required key '"@ + required_keys()[index as int] + "' in AI response"@
            } else {
                "Missing required key in AI response"@
            },
        }
    }

    /// The words for the error.
    pub fn message(&self) -> (text: String)
        ensures
            text@ == self.message_spec(),
    {
        match self {
            AiError::NotConfigured => "AI API Key or Model not configured".to_owned(),
            AiError::InvalidJson => "Failed to parse JSON".to_owned(),
            AiError::MissingKey { index } => {
                let keys = required_key_list();
                if *index < keys.len() {
                    let head = to_chars("Missing required key '");
                    let key = to_chars(keys[*index].as_str());
                    let tail = to_chars("' in AI response");
                    from_chars(&join_chars(&join_chars(&head, &key), &tail))
                } else {
                    "Missing required key in AI response".to_owned()
                }
            },
        }
    }
}

/// Checks an answer about a sender.
pub fn check_answer(json: &str) -> (out: Result<(), AiError>)
    ensures
        out == checked_answer(json@, 5),
{
    let keys = required_key_list();
    let mut i: usize = 0;
    while i < 5
        invariant
            i <= 5,
            keys@.len() == 5,
            forall|k: int| 0 <= k < 5 ==> (#[trigger] keys@[k])@ == required_keys()[k],
            checked_answer(json@, i as int) == Ok::<(), AiError>(()),
        decreases 5 - i,
    {
        proof {
            assert(checked_answer(json@, i + 1) == match json_has_key(
                json@,
                required_keys()[i as int],
            ) {
                None => Err::<(), AiError>(AiError::InvalidJson),
                Some(false) => Err(AiError::MissingKey { index: i }),
                Some(true) => Ok(()),
            });
        }
        match parse_json_key(json, keys[i].as_str()) {
            Err(_) => {
                proof {
                    lemma_check_stays_failed(json@, i + 1, 5);
                }
                return Err(AiError::InvalidJson);
            },
            Ok(false) => {
                proof {
                    lemma_check_stays_failed(json@, i + 1, 5);
                }
                return Err(AiError::MissingKey { index: i });
            },
            Ok(true) => {},
        }
        i = i + 1;
    }
    Ok(())
}

/// Once a required key is found missing, the check has failed for good.
proof fn lemma_check_stays_failed(json: Seq<char>, at: int, upto: int)
    requires
        0 <= at <= upto,
        checked_answer(json, at) is Err,
    ensures
        checked_answer(json, upto) == checked_answer(json, at),
    decreases upto - at,
{
    if at < upto {
        lemma_check_stays_failed(json, at, upto - 1);
    }
}

/// What follows the failure of the attempt with the number `attempt`,
/// the first being `1`: after the last attempt nothing; before it, a
/// wait of as many seconds as attempts were made.
pub open spec fn retry_step(attempt: u32) -> RetryStep {
    if attempt >= MAX_ATTEMPTS {
        RetryStep::GiveUp
    } else {
        RetryStep::RetryAfter { millis: (1000 * attempt) as u64 }
    }
}

/// Decides what to do after an attempt to ask the service has failed.
pub fn after_failure(attempt: u32) -> (step: RetryStep)
    ensures
        step == retry_step(attempt),
{
    if attempt >= MAX_ATTEMPTS {
        RetryStep::GiveUp
    } else {
        let millis: u64 = 1000 * (attempt as u64);
        RetryStep::RetryAfter { millis }
    }
}

/// Whether `a` comes before `b`, or is `b`, where texts are ordered by
/// their first characters that differ, and a text comes after the texts
/// that it begins with.
pub open spec fn text_le(a: Seq<char>, b: Seq<char>) -> bool
    decreases a.len(),
{
    if a.len() == 0 {
        true
    } else if b.len() == 0 {
        false
    } else if a[0] != b[0] {
        a[0] < b[0]
    } else {
        text_le(a.drop_first(), b.drop_first())
    }
}

/// Of two texts one comes before the other, or they are the same.
pub proof fn lemma_text_le_total(a: Seq<char>, b: Seq<char>)
    ensures
        text_le(a, b) || text_le(b, a),
    decreases a.len(),
{
    if a.len() > 0 && b.len() > 0 && a[0] == b[0] {
        lemma_text_le_total(a.drop_first(), b.drop_first());
    }
}

/// What comes before a text comes before all that the text comes before.
pub proof fn lemma_text_le_transitive(a: Seq<char>, b: Seq<char>, c: Seq<char>)
    requires
        text_le(a, b),
        text_le(b, c),
    ensures
        text_le(a, c),
    decreases a.len(),
{
    if a.len() > 0 && b.len() > 0 && c.len() > 0 && a[0] == b[0] && b[0] == c[0] {
        lemma_text_le_transitive(a.drop_first(), b.drop_first(), c.drop_first());
    }
}

/// Whether `a` comes before `b`, or is `b`.
pub fn text_before_or_same(a: &Vec<char>, b: &Vec<char>) -> (yes: bool)
    ensures
        yes == text_le(a@, b@),
{
    let mut i: usize = 0;
    assert(a@.skip(0) == a@ && b@.skip(0) == b@);
    while i < a.len() && i < b.len() && a[i] == b[i]
        invariant
            i <= a.len(),
            i <= b.len(),
            text_le(a@, b@) == text_le(a@.skip(i as int), b@.skip(i as int)),
        decreases a.len() - i,
    {
        proof {
            let x = a@.skip(i as int);
            let y = b@.skip(i as int);
            assert(x[0] == a@[i as int] && y[0] == b@[i as int]);
            assert(x.drop_first() == a@.skip(i + 1));
            assert(y.drop_first() == b@.skip(i + 1));
        }
        i = i + 1;
    }
    proof {
        let x = a@.skip(i as int);
        let y = b@.skip(i as int);
        if i < a.len() && i < b.len() {
            assert(x[0] == a@[i as int] && y[0] == b@[i as int]);
        }
    }
    if i == a.len() {
        true
    } else if i == b.len() {
        false
    } else {
        a[i] < b[i]
    }
}

/// The identifier of each model of a list.
pub open spec fn model_ids(models: Seq<AIModel>) -> Seq<Seq<char>> {
    Seq::new(models.len(), |i: int| models[i].id@)
}

/// Whether each text of a list comes before those that follow it, or is
/// the same.
pub open spec fn ascending(ids: Seq<Seq<char>>) -> bool {
    forall|i: int, j: int| 0 <= i < j < ids.len() ==> text_le(#[trigger] ids[i], #[trigger] ids[j])
}

/// The models in the order of their identifiers: each model is listed as
/// often as before, and none comes before one whose identifier comes
/// before its own.
pub fn sorted_models(models: &Vec<AIModel>) -> (sorted: Vec<AIModel>)
    ensures
        ascending(model_ids(sorted@)),
        model_ids(sorted@).to_multiset() == model_ids(models@).to_multiset(),
        sorted@.len() == models@.len(),
{
    let mut sorted: Vec<AIModel> = Vec::new();
    let mut i: usize = 0;
    proof {
        assert(model_ids(models@).take(0) =~= model_ids(sorted@));
    }
    while i < models.len()
        invariant
            i <= models.len(),
            sorted@.len() == i,
            ascending(model_ids(sorted@)),
            model_ids(sorted@).to_multiset() == model_ids(models@).take(i as int).to_multiset(),
        decreases models.len() - i,
    {
        let id = models[i].id.clone();
        let id_chars = to_chars(id.as_str());
        let mut at: usize = 0;
        while at < sorted.len() && text_before_or_same(&to_chars(sorted[at].id.as_str()), &id_chars)
            invariant
                at <= sorted.len(),
                id_chars@ == id@,
                forall|k: int| 0 <= k < at ==> text_le(#[trigger] model_ids(sorted@)[k], id@),
            decreases sorted.len() - at,
        {
            at = at + 1;
        }
        let ghost before = model_ids(sorted@);
        sorted.insert(at, AIModel { id });
        proof {
            let after = model_ids(sorted@);
            let new_id = models[i as int].id@;
            assert(after =~= before.insert(at as int, new_id));
            assert forall|a: int, b: int| 0 <= a < b < after.len() implies text_le(
                #[trigger] after[a],
                #[trigger] after[b],
            ) by {
                if b == at {
                    assert(after[a] == before[a]);
                } else if a == at {
                    assert(after[b] == before[b - 1]);
                    lemma_text_le_total(before[at as int], new_id);
                    if b - 1 > at {
                        assert(text_le(before[at as int], before[b - 1]));
                        lemma_text_le_transitive(new_id, before[at as int], before[b - 1]);
                    }
                } else {
                    let x = if a < at { a } else { a - 1 };
                    let y = if b < at { b } else { b - 1 };
                    assert(after[a] == before[x]);
                    assert(after[b] == before[y]);
                }
            }
            broadcast use vstd::seq_lib::group_to_multiset_ensures;

            assert(after.remove(at as int) =~= before);
            assert(after[at as int] == new_id);
            assert(after.to_multiset().count(new_id) > 0) by {
                assert(after.contains(new_id));
            }
            assert(after.to_multiset() =~= before.to_multiset().insert(new_id));
            let upto = model_ids(models@).take(i + 1);
            assert(upto =~= model_ids(models@).take(i as int).push(new_id));
        }
        i = i + 1;
    }
    assert(model_ids(models@).take(models.len() as int) =~= model_ids(models@));
    sorted
}

} // verus!
