//! Optional AI adapter. Detection, alerting and evidence never depend on it:
//! it only enriches an incident that was already summarised, on demand.
//!
//! The adapter decides whether a request may be made, builds the command that
//! sends it, and reads the provider's reply down to the JSON text of the
//! advice; reading the key, running the command and decoding the advice into
//! its fields are left to the caller.

use crate::config::AiConfig;
use crate::models::{
    evidence_view, severity_debug_name, strings_view, IncidentEvidenceView, IncidentSummary, IncidentSummaryView,
};
use crate::text::{
    chars_of, ends_with, join_all, concat_all, owned, replace_all, replace_all_vec, starts_with, string_from_range,
    trim, trim_bounds, vec_ends, vec_starts, join_strings, join_with,
};
use vstd::prelude::*;

verus! {

/// `s` with every trailing occurrence of `pat` removed (`str::trim_end_matches`).
pub open spec fn trim_end_matches(s: Seq<char>, pat: Seq<char>) -> Seq<char>
    decreases s.len(),
{
    if pat.len() > 0 && ends_with(s, pat) {
        trim_end_matches(s.subrange(0, s.len() - pat.len()), pat)
    } else {
        s
    }
}

/// The text without a surrounding Markdown code fence (```` ```json ```` or
/// ```` ``` ````), trimmed.
pub open spec fn strip_code_fences_spec(text: Seq<char>) -> Seq<char> {
    let t = trim(text);
    if starts_with(t, "```json"@) {
        trim(trim_end_matches(trim(t.subrange(7, t.len() as int)), "```"@))
    } else if starts_with(t, "```"@) {
        trim(trim_end_matches(trim(t.subrange(3, t.len() as int)), "```"@))
    } else {
        t
    }
}

fn trim_vec(v: &Vec<char>) -> (r: Vec<char>)
    ensures
        r@ == trim(v@),
{
    let (a, b) = trim_bounds(v);
    chars_of(string_from_range(v, a, b).as_str())
}

fn trim_fence_ends(v: &Vec<char>) -> (r: Vec<char>)
    ensures
        r@ == trim_end_matches(v@, "```"@),
{
    let ghost fence = "```"@;
    proof {
        reveal_strlit("```");
        assert(fence =~= seq!['`', '`', '`']);
    }
    let mut end: usize = v.len();
    let ghost target = trim_end_matches(v@, fence);
    assert(v@.subrange(0, v@.len() as int) =~= v@);
    while end >= 3 && v[end - 1] == '`' && v[end - 2] == '`' && v[end - 3] == '`'
        invariant
            end <= v@.len(),
            fence == seq!['`', '`', '`'],
            fence == "```"@,
            trim_end_matches(v@.subrange(0, end as int), fence) == target,
        decreases end,
    {
        proof {
            let s = v@.subrange(0, end as int);
            assert(s.subrange(end - 3, end as int) =~= fence);
            assert(ends_with(s, fence));
            assert(s.subrange(0, s.len() - 3) =~= v@.subrange(0, end - 3));
        }
        end = end - 3;
    }
    proof {
        let s = v@.subrange(0, end as int);
        if ends_with(s, fence) {
            assert(s.subrange(end - 3, end as int) == fence);
            assert(s.subrange(end - 3, end as int)[0] == '`');
            assert(s.subrange(end - 3, end as int)[1] == '`');
            assert(s.subrange(end - 3, end as int)[2] == '`');
            assert(v@[end - 1] == '`' && v@[end - 2] == '`' && v@[end - 3] == '`');
        }
    }
    chars_of(string_from_range(v, 0, end).as_str())
}

/// Removes a Markdown code fence around a model reply.
pub fn strip_code_fences(text: &str) -> (r: String)
    ensures
        r@ == strip_code_fences_spec(text@),
{
    let t = trim_vec(&chars_of(text));
    let rest_from: usize = if vec_starts(&t, "```json") {
        proof {
            reveal_strlit("```json");
        }
        7
    } else if vec_starts(&t, "```") {
        proof {
            reveal_strlit("```");
        }
        3
    } else {
        return crate::text::string_from_range(&t, 0, t.len());
    };
    proof {
        reveal_strlit("```json");
        reveal_strlit("```");
    }
    let rest = chars_of(string_from_range(&t, rest_from, t.len()).as_str());
    let inner = trim_fence_ends(&trim_vec(&rest));
    let done = trim_vec(&inner);
    string_from_range(&done, 0, done.len())
}

/// Why a request to the AI provider cannot be made.
#[derive(Debug, Clone, Copy, PartialEq, Eq, Structural)]
pub enum AiUnavailable {
    /// The integration is switched off in the configuration.
    Disabled,
    /// No endpoint is configured.
    MissingEndpoint,
}

impl AiUnavailable {
    /// The message shown to the user.
    pub fn message(self) -> (r: &'static str)
        ensures
            r@ == match self {
                AiUnavailable::Disabled => "La integración IA está desactivada en la configuración"@,
                AiUnavailable::MissingEndpoint => "Falta ai.endpoint en la configuración"@,
            },
    {
        match self {
            AiUnavailable::Disabled => "La integración IA está desactivada en la configuración",
            AiUnavailable::MissingEndpoint => "Falta ai.endpoint en la configuración",
        }
    }
}

/// The optional AI assistant and its settings.
pub struct AiAdvisor {
    config: AiConfig,
}

impl AiAdvisor {
    /// The settings the advisor runs with.
    pub closed spec fn settings(&self) -> AiConfig {
        self.config
    }

    /// An advisor with these settings.
    pub fn new(config: AiConfig) -> (r: AiAdvisor)
        ensures
            r.settings() == config,
    {
        AiAdvisor { config }
    }

    /// Whether the integration is switched on.
    pub fn enabled(&self) -> (r: bool)
        ensures
            r == self.settings().enabled,
    {
        self.config.enabled
    }

    /// The settings the advisor runs with.
    pub fn config(&self) -> (r: &AiConfig)
        ensures
            *r == self.settings(),
    {
        &self.config
    }

    /// Whether a request may be made: the integration is on and an endpoint
    /// (not blank) is configured.
    pub fn readiness(&self) -> (r: Result<(), AiUnavailable>)
        ensures
            r == (if !self.settings().enabled {
                Err(AiUnavailable::Disabled)
            } else if trim(self.settings().endpoint@).len() == 0 {
                Err(AiUnavailable::MissingEndpoint)
            } else {
                Ok(())
            }),
    {
        if !self.config.enabled {
            return Err(AiUnavailable::Disabled);
        }
        let e = trim_vec(&chars_of(self.config.endpoint.as_str()));
        if e.len() == 0 {
            return Err(AiUnavailable::MissingEndpoint);
        }
        Ok(())
    }
}

/// A text made safe inside single quotes of a PowerShell script: every `'`
/// doubled.
pub open spec fn ps_quote(s: Seq<char>) -> Seq<char> {
    replace_all(s, "'"@, "''"@)
}

/// Doubles the single quotes of a text for a PowerShell single-quoted string.
pub fn powershell_quote(s: &str) -> (r: String)
    ensures
        r@ == ps_quote(s@),
{
    let v = replace_all_vec(&chars_of(s), &chars_of("'"), &chars_of("''"));
    string_from_range(&v, 0, v.len())
}

/// The PowerShell script that posts the request file to the endpoint with
/// the key as bearer token and prints the reply as compact JSON.
pub open spec fn request_script_spec(endpoint: Seq<char>, api_key: Seq<char>, request_path: Seq<char>, timeout: Seq<char>) -> Seq<char> {
    "$headers = @{ Authorization = 'Bearer "@ + ps_quote(api_key)
        + "'; 'Content-Type' = 'application/json' }; $body = Get-Content -Raw -Path '"@ + ps_quote(request_path)
        + "'; $response = Invoke-RestMethod -Uri '"@ + ps_quote(endpoint)
        + "' -Method Post -Headers $headers -Body $body -TimeoutSec "@ + timeout
        + "; $response | ConvertTo-Json -Depth 20 -Compress"@
}

/// Builds the script that sends a request; the request body is read from
/// `request_path`.
pub fn request_script(endpoint: &str, api_key: &str, request_path: &str, timeout_secs: u64) -> (r: String)
    ensures
        r@ == request_script_spec(endpoint@, api_key@, request_path@, crate::text::int_text(timeout_secs as int)),
{
    let k = powershell_quote(api_key);
    let p = powershell_quote(request_path);
    let e = powershell_quote(endpoint);
    let t = crate::text::int_text_exec(timeout_secs as i128);
    let r = join_all(
        &[
            "$headers = @{ Authorization = 'Bearer ",
            k.as_str(),
            "'; 'Content-Type' = 'application/json' }; $body = Get-Content -Raw -Path '",
            p.as_str(),
            "'; $response = Invoke-RestMethod -Uri '",
            e.as_str(),
            "' -Method Post -Headers $headers -Body $body -TimeoutSec ",
            t.as_str(),
            "; $response | ConvertTo-Json -Depth 20 -Compress",
        ],
    );
    proof {
        reveal_with_fuel(concat_all, 10);
    }
    assert(r@ =~= request_script_spec(endpoint@, api_key@, request_path@, t@));
    r
}


/// An evidence item as the prompt lists it: `label=value (kind)`.
pub open spec fn evidence_line(e: IncidentEvidenceView) -> Seq<char> {
    e.label + "="@ + e.value + " ("@ + e.kind + ")"@
}

/// The prompt that asks the model about an incident.
pub open spec fn user_prompt_spec(i: IncidentSummaryView) -> Seq<char> {
    "Analiza este incidente de RootCause y devuelve solo JSON.\nTítulo: "@ + i.title + "\nSeveridad: "@
        + severity_debug_name(i.severity) + "\nTipo: "@ + i.kind + "\nResumen: "@ + i.summary
        + "\nCausas probables detectadas: "@ + join_with(i.probable_causes, " | "@) + "\nEvidencia: "@
        + join_with(i.evidence.map_values(|e: IncidentEvidenceView| evidence_line(e)), " | "@)
        + "\nAcciones recomendadas locales: "@ + join_with(i.recommended_actions, " | "@)
}

/// Builds the prompt that asks the model about an incident.
pub fn build_user_prompt(incident: &IncidentSummary) -> (r: String)
    ensures
        r@ == user_prompt_spec(incident@),
{
    let mut lines: Vec<String> = Vec::new();
    let mut k: usize = 0;
    while k < incident.evidence.len()
        invariant
            k <= incident.evidence@.len(),
            lines@.len() == k,
            forall|m: int| 0 <= m < k ==> (#[trigger] lines@[m])@ == evidence_line(incident.evidence@[m]@),
        decreases incident.evidence.len() - k,
    {
        let e = &incident.evidence[k];
        let line = join_all(&[e.label.as_str(), "=", e.value.as_str(), " (", e.kind.as_str(), ")"]);
        proof {
            reveal_with_fuel(concat_all, 7);
        }
        lines.push(line);
        k = k + 1;
    }
    let causes = join_strings(&incident.probable_causes, " | ");
    let evidence = join_strings(&lines, " | ");
    let actions = join_strings(&incident.recommended_actions, " | ");
    proof {
        assert(lines@.map_values(|p: String| p@) =~= evidence_view(incident.evidence@).map_values(
            |e: IncidentEvidenceView| evidence_line(e),
        ));
        assert(incident.probable_causes@.map_values(|p: String| p@) =~= strings_view(incident.probable_causes@));
        assert(incident.recommended_actions@.map_values(|p: String| p@) =~= strings_view(
            incident.recommended_actions@,
        ));
    }
    let r = join_all(
        &[
            "Analiza este incidente de RootCause y devuelve solo JSON.\nTítulo: ",
            incident.title.as_str(),
            "\nSeveridad: ",
            incident.severity.debug_name(),
            "\nTipo: ",
            incident.kind.as_str(),
            "\nResumen: ",
            incident.summary.as_str(),
            "\nCausas probables detectadas: ",
            causes.as_str(),
            "\nEvidencia: ",
            evidence.as_str(),
            "\nAcciones recomendadas locales: ",
            actions.as_str(),
        ],
    );
    proof {
        reveal_with_fuel(concat_all, 15);
    }
    r
}

// ---------------------------------------------------------------------------
// The provider's reply
// ---------------------------------------------------------------------------

/// The provider's reply as `serde_json::from_str::<Value>` reads it: `None`
/// when the text is not JSON; otherwise the string at
/// `choices[0].message.content` (`get`, `as_array`, `first`, `as_str`), or
/// `None` inside when there is none.
pub uninterp spec fn reply_content(raw: Seq<char>) -> Option<Option<Seq<char>>>;

/// Reads the provider's reply with `serde_json::from_str::<Value>` and takes
/// the string at `choices[0].message.content`. The contract claims only that
/// the result is what the crate computes from the text (see
/// [`reply_content`]).
#[verifier::external_body]
fn read_reply_content(raw: &str) -> (r: Option<Option<String>>)
    ensures
        match r {
            None => reply_content(raw@) is None,
            Some(None) => reply_content(raw@) == Some(None::<Seq<char>>),
            Some(Some(c)) => reply_content(raw@) == Some(Some(c@)),
        },
{
    let value = serde_json::from_str::<serde_json::Value>(raw).ok()?;
    Some(
        value
            .get("choices")
            .and_then(serde_json::Value::as_array)
            .and_then(|choices| choices.first())
            .and_then(|choice| choice.get("message"))
            .and_then(|message| message.get("content"))
            .and_then(serde_json::Value::as_str)
            .map(str::to_owned),
    )
}

/// The JSON text of the advice in a provider reply, without a code fence, or
/// why the reply holds none.
pub open spec fn advice_json_spec(raw: Seq<char>) -> Result<Seq<char>, Seq<char>> {
    match reply_content(raw) {
        None => Err("La respuesta del proveedor IA no es JSON válido"@),
        Some(None) => Err("No se encontró choices[0].message.content en la respuesta IA"@),
        Some(Some(c)) => Ok(strip_code_fences_spec(c)),
    }
}

/// Takes the advice out of a provider reply: the content of the first choice,
/// without a Markdown code fence.
pub fn advice_json(raw: &str) -> (r: Result<String, String>)
    ensures
        match r {
            Ok(s) => advice_json_spec(raw@) == Ok::<Seq<char>, Seq<char>>(s@),
            Err(e) => advice_json_spec(raw@) == Err::<Seq<char>, Seq<char>>(e@),
        },
{
    match read_reply_content(raw) {
        None => Err(owned("La respuesta del proveedor IA no es JSON válido")),
        Some(None) => Err(owned("No se encontró choices[0].message.content en la respuesta IA")),
        Some(Some(content)) => Ok(strip_code_fences(content.as_str())),
    }
}

} // verus!
