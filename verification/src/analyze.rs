//! What the analysis call sends and what comes back: the full prompt
//! assembled from context and history, the image as a data URL, and the
//! reply's description.

use vstd::prelude::*;
use vstd::string::StringExecFns;

verus! {

/// Token counts the analysis service reports, when it reports any.
#[derive(Clone, Copy, Debug, PartialEq, Eq, Structural)]
pub struct TokenUsage {
    pub prompt_tokens: Option<u32>,
    pub completion_tokens: Option<u32>,
    pub total_tokens: Option<u32>,
}

/// One analysis call's outcome.
#[derive(Clone, Debug, PartialEq)]
pub struct AnalysisResult {
    pub description: String,
    pub token_usage: Option<TokenUsage>,
    pub processing_time_ms: u64,
}

/// What the base64 standard-alphabet encoder produces for a byte sequence;
/// a function of the bytes alone.
pub uninterp spec fn base64_of(bytes: Seq<u8>) -> Seq<char>;

/// Relies on base64's `STANDARD` engine: the padded standard-alphabet
/// encoding, four characters for every started group of three bytes,
/// depending on the bytes alone. The length bound keeps the output size
/// computation from overflowing, on which the encoder panics.
#[verifier::external_body]
fn base64_encode(data: &Vec<u8>) -> (r: String)
    requires
        4 * ((data@.len() + 2) / 3) <= usize::MAX,
    ensures
        r@ == base64_of(data@),
        r@.len() == 4 * ((data@.len() + 2) / 3),
{
    base64::Engine::encode(&base64::engine::general_purpose::STANDARD, data)
}

/// The image bytes as the inline data URL the analysis request embeds. The
/// length bound is the encoder's machine limit.
pub fn image_data_url(data: &Vec<u8>) -> (r: String)
    requires
        4 * ((data@.len() + 2) / 3) <= usize::MAX,
    ensures
        r@ == "data:image/png;base64,"@ + base64_of(data@),
{
    let mut r = String::from_str("data:image/png;base64,");
    let encoded = base64_encode(data);
    r.append(encoded.as_str());
    r
}

/// The single prompt handed to the analysis collaborator: the configured
/// prompt, then the system context under its framing sentence, then the
/// recent-activity history followed by its framing sentence.
pub fn build_full_prompt(prompt: &str, context_text: Option<&str>, history_text: Option<&str>) -> (
    r: String)
    ensures
        r@ == prompt@ + (match context_text {
            Some(c) => "\n\n以下是当前系统上下文，请结合截图一起分析：\n"@ + c@,
            None => Seq::<char>::empty(),
        }) + (match history_text {
            Some(h) => "\n\n"@ + h@
                + "以下是用户最近的活动历史，仅供参考。请独立分析当前截图，当前行为可能与历史活动相关，也可能完全无关。"@,
            None => Seq::<char>::empty(),
        }),
{
    let mut r = String::from_str(prompt);
    match context_text {
        Some(c) => {
            r.append("\n\n以下是当前系统上下文，请结合截图一起分析：\n");
            r.append(c);
        },
        None => {},
    }
    match history_text {
        Some(h) => {
            r.append("\n\n");
            r.append(h);
            r.append(
                "以下是用户最近的活动历史，仅供参考。请独立分析当前截图，当前行为可能与历史活动相关，也可能完全无关。",
            );
        },
        None => {},
    }
    r
}

/// The description taken from the reply: the first choice's text, or a fixed
/// fallback when the reply carried none.
pub fn description_or_default(content: Option<String>) -> (r: String)
    ensures
        match content {
            Some(c) => r == c,
            None => r@ == "无法分析截图内容"@,
        },
{
    match content {
        Some(c) => c,
        None => String::from_str("无法分析截图内容"),
    }
}

} // verus!
