//! AI agent commands: `reed agent:*`.
//!
//! The agent registry is not available yet: the commands check their
//! arguments and say what they would do.
use vstd::prelude::*;
use crate::cli::checks::{first_arg, flag_or_missing};
use crate::cli::parser::strings_view;
use crate::reedstream::{is_invalid_command, is_validation_error, ReedResponse, ReedResult};
use crate::report::{join_seqs, join_strings};
use crate::string_map::StringMap;
use crate::text::{
    chars_to_string, copy_string, push_char, push_chars, push_str, split_on, split_to_strings,
    str_to_string, to_chars,
};

verus! {

pub open spec fn flag_or(flags: StringMap, name: Seq<char>, default: Seq<char>) -> Seq<char> {
    match flags.lookup(name) {
        Some(v) => v,
        None => default,
    }
}

fn flag_or_default(flags: &StringMap, name: &str, default: &str) -> (r: String)
    requires
        flags.wf(),
    ensures
        r@ == flag_or(*flags, name@, default@),
{
    match flags.get(name) {
        Some(v) => copy_string(v),
        None => str_to_string(default),
    }
}

/// The first `n` characters of `s` (all of them when shorter).
pub open spec fn first_chars(s: Seq<char>, n: nat) -> Seq<char> {
    if s.len() <= n { s } else { s.take(n as int) }
}

/// The report of `agent:add`.
pub open spec fn add_text(id: Seq<char>, provider: Seq<char>, key: Seq<char>, model: Seq<char>, temp: Seq<char>, tokens: Seq<char>) -> Seq<char> {
    "✨ Adding AI agent...\n\n"@ + "Agent ID: "@ + id + "\n"@ + "Provider: "@ + provider + "\n"@ + "Model: "@
        + model + "\n"@ + "Temperature: "@ + temp + "\n"@ + "Max tokens: "@ + tokens + "\n\n"@
        + "⚠ Agent registry not yet implemented (requires REED-20-01)\n"@
        + "   Full MCP integration will be available with MCP Server Library.\n\n"@ + "Would add agent:\n"@
        + "- ID: "@ + id + "\n"@ + "- Provider: "@ + provider + "\n"@ + "- Model: "@ + model + "\n"@
        + "- API Key: "@ + first_chars(key, 8) + "*** (encrypted)\n"@ + "- Storage: .reed/agents.matrix.csv\n"@
}

pub open spec fn add_usage() -> Seq<char> {
    "Missing agent_id argument. Usage: reed agent:add <agent_id> --provider <provider> --api-key <key> --model <model>"@
}

/// `reed agent:add <agent_id> --provider <p> --api-key <k> --model <m>
/// [--temperature ..] [--max-tokens ..]`.
pub fn add(args: &Vec<String>, flags: &StringMap) -> (r: ReedResult<ReedResponse<String>>)
    requires
        flags.wf(),
    ensures
        args@.len() == 0 ==> (r matches Err(e) && is_invalid_command(e, "agent:add"@, add_usage())),
        args@.len() > 0 ==> match (flags.lookup("provider"@), flags.lookup("api-key"@), flags.lookup("model"@)) {
            (None, _, _) => r matches Err(e) && is_validation_error(
                e,
                "provider"@,
                Seq::empty(),
                "--provider flag required (anthropic, openai)"@,
            ),
            (Some(_), None, _) => r matches Err(e) && is_validation_error(e, "api-key"@, Seq::empty(), "--api-key flag required"@),
            (Some(_), Some(_), None) => r matches Err(e) && is_validation_error(
                e,
                "model"@,
                Seq::empty(),
                "--model flag required (e.g., sonnet-4, gpt-4-turbo)"@,
            ),
            (Some(p), Some(k), Some(m)) => r matches Ok(resp) && resp.source@ == "cli::agent_add"@ && resp.data@
                == add_text(
                args@[0]@,
                p,
                k,
                m,
                flag_or(*flags, "temperature"@, "0.7"@),
                flag_or(*flags, "max-tokens"@, "4096"@),
            ),
        },
{
    let agent_id = first_arg(
        args,
        "agent:add",
        "Missing agent_id argument. Usage: reed agent:add <agent_id> --provider <provider> --api-key <key> --model <model>",
    )?;
    let provider = flag_or_missing(flags, "provider", "provider", "--provider flag required (anthropic, openai)")?;
    let api_key = flag_or_missing(flags, "api-key", "api-key", "--api-key flag required")?;
    let model = flag_or_missing(flags, "model", "model", "--model flag required (e.g., sonnet-4, gpt-4-turbo)")?;
    let temperature = flag_or_default(flags, "temperature", "0.7");
    let max_tokens = flag_or_default(flags, "max-tokens", "4096");
    let mut out = str_to_string("✨ Adding AI agent...\n\n");
    push_str(&mut out, "Agent ID: ");
    push_str(&mut out, agent_id.as_str());
    push_str(&mut out, "\n");
    push_str(&mut out, "Provider: ");
    push_str(&mut out, provider.as_str());
    push_str(&mut out, "\n");
    push_str(&mut out, "Model: ");
    push_str(&mut out, model.as_str());
    push_str(&mut out, "\n");
    push_str(&mut out, "Temperature: ");
    push_str(&mut out, temperature.as_str());
    push_str(&mut out, "\n");
    push_str(&mut out, "Max tokens: ");
    push_str(&mut out, max_tokens.as_str());
    push_str(&mut out, "\n\n");
    push_str(&mut out, "⚠ Agent registry not yet implemented (requires REED-20-01)\n");
    push_str(&mut out, "   Full MCP integration will be available with MCP Server Library.\n\n");
    push_str(&mut out, "Would add agent:\n");
    push_str(&mut out, "- ID: ");
    push_str(&mut out, agent_id.as_str());
    push_str(&mut out, "\n");
    push_str(&mut out, "- Provider: ");
    push_str(&mut out, provider.as_str());
    push_str(&mut out, "\n");
    push_str(&mut out, "- Model: ");
    push_str(&mut out, model.as_str());
    push_str(&mut out, "\n");
    push_str(&mut out, "- API Key: ");
    let kc = to_chars(api_key.as_str());
    let n = if kc.len() <= 8 { kc.len() } else { 8 };
    push_chars(&mut out, kc.as_slice(), 0, n);
    assert(kc@.subrange(0, n as int) =~= first_chars(api_key@, 8));
    push_str(&mut out, "*** (encrypted)\n");
    push_str(&mut out, "- Storage: .reed/agents.matrix.csv\n");
    Ok(ReedResponse::new(out, "cli::agent_add"))
}

pub open spec fn list_table() -> Seq<char> {
    "📋 Registered AI Agents\n\n"@ + "┌────────────┬────────────┬──────────────────────┬────────┬──────────┐\n"@
        + "│ Agent ID   │ Provider   │ Model                │ Temp   │ Status   │\n"@
        + "├────────────┼────────────┼──────────────────────┼────────┼──────────┤\n"@
        + "│ (none)     │ -          │ -                    │ -      │ -        │\n"@
        + "└────────────┴────────────┴──────────────────────┴────────┴──────────┘\n\n"@
        + "⚠ Agent registry empty (requires REED-20-01 for MCP integration)\n"@
}

/// The listing of `agent:list` in a format (`table`, `json`, `csv`; any
/// other gives nothing).
pub open spec fn list_text(format: Seq<char>) -> Seq<char> {
    if format == "table"@ {
        list_table()
    } else if format == "json"@ {
        "[]"@
    } else if format == "csv"@ {
        "agent_id,provider,model,temperature,status\n"@
    } else {
        Seq::empty()
    }
}

/// `reed agent:list [--format table|json|csv]`.
pub fn list(args: &Vec<String>, flags: &StringMap) -> (r: ReedResult<ReedResponse<String>>)
    requires
        flags.wf(),
    ensures
        r matches Ok(resp) && resp.source@ == "cli::agent_list"@ && resp.data@ == list_text(
            flag_or(*flags, "format"@, "table"@),
        ),
{
    let format = flag_or_default(flags, "format", "table");
    let mut out = String::new();
    if crate::text::str_eq(format.as_str(), "table") {
        push_str(&mut out, "📋 Registered AI Agents\n\n");
        push_str(&mut out, "┌────────────┬────────────┬──────────────────────┬────────┬──────────┐\n");
        push_str(&mut out, "│ Agent ID   │ Provider   │ Model                │ Temp   │ Status   │\n");
        push_str(&mut out, "├────────────┼────────────┼──────────────────────┼────────┼──────────┤\n");
        push_str(&mut out, "│ (none)     │ -          │ -                    │ -      │ -        │\n");
        push_str(&mut out, "└────────────┴────────────┴──────────────────────┴────────┴──────────┘\n\n");
        push_str(&mut out, "⚠ Agent registry empty (requires REED-20-01 for MCP integration)\n");
        assert(out@ =~= list_table());
    } else if crate::text::str_eq(format.as_str(), "json") {
        push_str(&mut out, "[]");
    } else if crate::text::str_eq(format.as_str(), "csv") {
        push_str(&mut out, "agent_id,provider,model,temperature,status\n");
    }
    Ok(ReedResponse::new(out, "cli::agent_list"))
}

/// `reed agent:show <agent_id>`.
pub fn show(args: &Vec<String>, flags: &StringMap) -> (r: ReedResult<ReedResponse<String>>)
    ensures
        args@.len() == 0 ==> (r matches Err(e) && is_invalid_command(
            e,
            "agent:show"@,
            "Missing agent_id argument. Usage: reed agent:show <agent_id>"@,
        )),
        args@.len() > 0 ==> (r matches Ok(resp) && resp.source@ == "cli::agent_show"@ && resp.data@
            == "🤖 Agent Details: "@ + args@[0]@ + "\n\n"@ + "⚠ Agent not found (registry requires REED-20-01)\n\n"@
            + "Tip: Add agents with: reed agent:add <id> --provider anthropic --api-key sk-xxx --model sonnet-4\n"@),
{
    let agent_id = first_arg(args, "agent:show", "Missing agent_id argument. Usage: reed agent:show <agent_id>")?;
    let mut out = str_to_string("🤖 Agent Details: ");
    push_str(&mut out, agent_id.as_str());
    push_str(&mut out, "\n\n");
    push_str(&mut out, "⚠ Agent not found (registry requires REED-20-01)\n\n");
    push_str(
        &mut out,
        "Tip: Add agents with: reed agent:add <id> --provider anthropic --api-key sk-xxx --model sonnet-4\n",
    );
    Ok(ReedResponse::new(out, "cli::agent_show"))
}

/// `reed agent:test <agent_id> [--prompt ..]`.
pub fn test(args: &Vec<String>, flags: &StringMap) -> (r: ReedResult<ReedResponse<String>>)
    requires
        flags.wf(),
    ensures
        args@.len() == 0 ==> (r matches Err(e) && is_invalid_command(
            e,
            "agent:test"@,
            "Missing agent_id argument. Usage: reed agent:test <agent_id>"@,
        )),
        args@.len() > 0 ==> (r matches Ok(resp) && resp.source@ == "cli::agent_test"@ && resp.data@
            == "🧪 Testing agent: "@ + args@[0]@ + "\n\n"@ + "Test prompt: \""@ + flag_or(*flags, "prompt"@, "Hello"@)
            + "\"\n\n"@ + "⚠ Agent testing not yet available (requires REED-20-01)\n"@
            + "   MCP provider integration will enable connection testing.\n"@),
{
    let agent_id = first_arg(args, "agent:test", "Missing agent_id argument. Usage: reed agent:test <agent_id>")?;
    let prompt = flag_or_default(flags, "prompt", "Hello");
    let mut out = str_to_string("🧪 Testing agent: ");
    push_str(&mut out, agent_id.as_str());
    push_str(&mut out, "\n\n");
    push_str(&mut out, "Test prompt: \"");
    push_str(&mut out, prompt.as_str());
    push_str(&mut out, "\"\n\n");
    push_str(&mut out, "⚠ Agent testing not yet available (requires REED-20-01)\n");
    push_str(&mut out, "   MCP provider integration will enable connection testing.\n");
    Ok(ReedResponse::new(out, "cli::agent_test"))
}

/// `prefix + value + "\n"` when the flag is given.
pub open spec fn flag_line(flags: StringMap, name: Seq<char>, prefix: Seq<char>) -> Seq<char> {
    match flags.lookup(name) {
        Some(v) => prefix + v + "\n"@,
        None => Seq::empty(),
    }
}

fn push_flag_line(out: &mut String, flags: &StringMap, name: &str, prefix: &str)
    requires
        flags.wf(),
    ensures
        final(out)@ == old(out)@ + flag_line(*flags, name@, prefix@),
{
    let ghost start = out@;
    match flags.get(name) {
        Some(v) => {
            push_str(out, prefix);
            push_str(out, v.as_str());
            push_str(out, "\n");
        },
        None => {},
    }
    assert(out@ =~= start + flag_line(*flags, name@, prefix@));
}

/// `reed agent:update <agent_id> [--model ..] [--temperature ..]
/// [--max-tokens ..]`.
pub fn update(args: &Vec<String>, flags: &StringMap) -> (r: ReedResult<ReedResponse<String>>)
    requires
        flags.wf(),
    ensures
        args@.len() == 0 ==> (r matches Err(e) && is_invalid_command(
            e,
            "agent:update"@,
            "Missing agent_id argument. Usage: reed agent:update <agent_id> [flags]"@,
        )),
        args@.len() > 0 ==> (r matches Ok(resp) && resp.source@ == "cli::agent_update"@ && resp.data@
            == "🔧 Updating agent: "@ + args@[0]@ + "\n\n"@ + flag_line(*flags, "model"@, "✓ Model: "@) + flag_line(
            *flags,
            "temperature"@,
            "✓ Temperature: "@,
        ) + flag_line(*flags, "max-tokens"@, "✓ Max tokens: "@)
            + "\n⚠ Agent updates not yet available (requires REED-20-01)\n"@),
{
    let agent_id = first_arg(
        args,
        "agent:update",
        "Missing agent_id argument. Usage: reed agent:update <agent_id> [flags]",
    )?;
    let mut out = str_to_string("🔧 Updating agent: ");
    push_str(&mut out, agent_id.as_str());
    push_str(&mut out, "\n\n");
    push_flag_line(&mut out, flags, "model", "✓ Model: ");
    push_flag_line(&mut out, flags, "temperature", "✓ Temperature: ");
    push_flag_line(&mut out, flags, "max-tokens", "✓ Max tokens: ");
    push_str(&mut out, "\n⚠ Agent updates not yet available (requires REED-20-01)\n");
    Ok(ReedResponse::new(out, "cli::agent_update"))
}

/// `reed agent:remove <agent_id> [--force]`.
pub fn remove(args: &Vec<String>, flags: &StringMap) -> (r: ReedResult<ReedResponse<String>>)
    requires
        flags.wf(),
    ensures
        args@.len() == 0 ==> (r matches Err(e) && is_invalid_command(
            e,
            "agent:remove"@,
            "Missing agent_id argument. Usage: reed agent:remove <agent_id>"@,
        )),
        args@.len() > 0 ==> (r matches Ok(resp) && resp.source@ == "cli::agent_remove"@ && resp.data@
            == "🗑️  Removing agent: "@ + args@[0]@ + "\n\n"@ + if flags.lookup("force"@) is Some {
            "⚠ Agent removal not yet available (requires REED-20-01)\n"@
        } else {
            "⚠ Use --force to confirm removal\n"@
        }),
{
    let agent_id = first_arg(args, "agent:remove", "Missing agent_id argument. Usage: reed agent:remove <agent_id>")?;
    let mut out = str_to_string("🗑️  Removing agent: ");
    push_str(&mut out, agent_id.as_str());
    push_str(&mut out, "\n\n");
    if !flags.contains_key("force") {
        push_str(&mut out, "⚠ Use --force to confirm removal\n");
    } else {
        push_str(&mut out, "⚠ Agent removal not yet available (requires REED-20-01)\n");
    }
    Ok(ReedResponse::new(out, "cli::agent_remove"))
}

/// The report of `agent:generate`.
pub open spec fn generate_text(key: Seq<char>, prompt: Seq<char>, agent: Seq<char>) -> Seq<char> {
    "✨ AI Content Generation\n\n"@ + "Output key: "@ + key + "\n"@ + "Agent: "@ + agent + "\n"@ + "Prompt: "@
        + prompt + "\n\n"@ + "⚠ Content generation not yet available (requires REED-20-01)\n"@
        + "   MCP integration will enable AI-powered content creation.\n\n"@ + "Would generate content for:\n"@
        + "- Key: "@ + key + "\n"@ + "- Using: "@ + agent + "\n"@ + "- Save to: .reed/text.csv\n"@
}

/// `reed agent:generate <output_key> --prompt <text> --agent <id>`.
pub fn generate(args: &Vec<String>, flags: &StringMap) -> (r: ReedResult<ReedResponse<String>>)
    requires
        flags.wf(),
    ensures
        args@.len() == 0 ==> (r matches Err(e) && is_invalid_command(
            e,
            "agent:generate"@,
            "Missing output_key argument. Usage: reed agent:generate <output_key> --prompt <text> --agent <id>"@,
        )),
        args@.len() > 0 ==> match (flags.lookup("prompt"@), flags.lookup("agent"@)) {
            (None, _) => r matches Err(e) && is_validation_error(e, "prompt"@, Seq::empty(), "--prompt flag required"@),
            (Some(_), None) => r matches Err(e) && is_validation_error(e, "agent"@, Seq::empty(), "--agent flag required"@),
            (Some(p), Some(a)) => r matches Ok(resp) && resp.source@ == "cli::agent_generate"@ && resp.data@
                == generate_text(args@[0]@, p, a),
        },
{
    let key = first_arg(
        args,
        "agent:generate",
        "Missing output_key argument. Usage: reed agent:generate <output_key> --prompt <text> --agent <id>",
    )?;
    let prompt = flag_or_missing(flags, "prompt", "prompt", "--prompt flag required")?;
    let agent = flag_or_missing(flags, "agent", "agent", "--agent flag required")?;
    let mut out = str_to_string("✨ AI Content Generation\n\n");
    push_str(&mut out, "Output key: ");
    push_str(&mut out, key.as_str());
    push_str(&mut out, "\n");
    push_str(&mut out, "Agent: ");
    push_str(&mut out, agent.as_str());
    push_str(&mut out, "\n");
    push_str(&mut out, "Prompt: ");
    push_str(&mut out, prompt.as_str());
    push_str(&mut out, "\n\n");
    push_str(&mut out, "⚠ Content generation not yet available (requires REED-20-01)\n");
    push_str(&mut out, "   MCP integration will enable AI-powered content creation.\n\n");
    push_str(&mut out, "Would generate content for:\n");
    push_str(&mut out, "- Key: ");
    push_str(&mut out, key.as_str());
    push_str(&mut out, "\n");
    push_str(&mut out, "- Using: ");
    push_str(&mut out, agent.as_str());
    push_str(&mut out, "\n");
    push_str(&mut out, "- Save to: .reed/text.csv\n");
    Ok(ReedResponse::new(out, "cli::agent_generate"))
}

/// `s` with every occurrence of `pat` replaced by `rep`, scanning from
/// the left without overlaps (as `str::replace` does).
pub open spec fn replace_all(s: Seq<char>, pat: Seq<char>, rep: Seq<char>) -> Seq<char>
    decreases s.len(),
{
    if pat.len() == 0 || s.len() < pat.len() {
        s
    } else if s.take(pat.len() as int) == pat {
        rep + replace_all(s.skip(pat.len() as int), pat, rep)
    } else {
        seq![s[0]] + replace_all(s.skip(1), pat, rep)
    }
}

/// Replaces every occurrence of `pat` (not empty) by `rep`.
pub fn replace_str(s: &str, pat: &str, rep: &str) -> (r: String)
    requires
        pat@.len() > 0,
    ensures
        r@ == replace_all(s@, pat@, rep@),
{
    let cs = to_chars(s);
    let ps = to_chars(pat);
    let mut out = String::new();
    let mut i: usize = 0;
    assert(s@.skip(0) =~= s@);
    assert(out@ + replace_all(s@, pat@, rep@) =~= replace_all(s@, pat@, rep@));
    while i < cs.len()
        invariant
            cs@ == s@,
            ps@ == pat@,
            ps@.len() > 0,
            i <= cs@.len(),
            out@ + replace_all(s@.skip(i as int), pat@, rep@) == replace_all(s@, pat@, rep@),
        decreases cs.len() - i,
    {
        let ghost rest = s@.skip(i as int);
        if cs.len() - i >= ps.len() && crate::text::chars_occur_at(&cs, &ps, i) {
            assert(rest.take(pat@.len() as int) =~= pat@) by {
                assert forall|k: int| 0 <= k < pat@.len() implies rest.take(pat@.len() as int)[k] == pat@[k] by {
                    assert(rest[k] == s@[i + k]);
                }
            }
            assert(rest.skip(pat@.len() as int) =~= s@.skip(i + ps.len()));
            push_str(&mut out, rep);
            i = i + ps.len();
        } else {
            assert(rest.len() >= pat@.len() ==> rest.take(pat@.len() as int) != pat@) by {
                if rest.len() >= pat@.len() && rest.take(pat@.len() as int) == pat@ {
                    assert(s@.subrange(i as int, i + pat@.len()) =~= rest.take(pat@.len() as int));
                    assert(crate::text::occurs_at(s@, pat@, i as int));
                }
            }
            assert(rest.skip(1) =~= s@.skip(i + 1));
            push_char(&mut out, cs[i]);
            i = i + 1;
        }
    }
    assert(s@.skip(i as int) =~= Seq::<char>::empty());
    out
}

/// `- lang: key` for each target language, the key's `@de` turned into
/// `@lang`.
pub open spec fn translate_lines(langs: Seq<Seq<char>>, key: Seq<char>) -> Seq<char>
    decreases langs.len(),
{
    if langs.len() == 0 {
        Seq::empty()
    } else {
        translate_lines(langs.drop_last(), key) + "- "@ + langs.last() + ": "@ + replace_all(
            key,
            "@de"@,
            "@"@ + langs.last(),
        ) + "\n"@
    }
}

/// The report of `agent:translate`.
pub open spec fn translate_text(key: Seq<char>, to: Seq<char>, agent: Seq<char>) -> Seq<char> {
    let langs = split_on(to, ',');
    "🌐 AI Translation\n\n"@ + "Source key: "@ + key + "\n"@ + "Target languages: "@ + join_seqs(langs, ", "@)
        + "\n"@ + "Agent: "@ + agent + "\n\n"@ + "⚠ Translation not yet available (requires REED-20-01)\n"@
        + "   MCP integration will enable AI-powered translation.\n\n"@ + "Would translate to:\n"@
        + translate_lines(langs, key)
}

/// `reed agent:translate <source_key> --to <langs> --agent <id>`.
pub fn translate(args: &Vec<String>, flags: &StringMap) -> (r: ReedResult<ReedResponse<String>>)
    requires
        flags.wf(),
    ensures
        args@.len() == 0 ==> (r matches Err(e) && is_invalid_command(
            e,
            "agent:translate"@,
            "Missing source_key argument. Usage: reed agent:translate <source_key> --to <lang> --agent <id>"@,
        )),
        args@.len() > 0 ==> match (flags.lookup("to"@), flags.lookup("agent"@)) {
            (None, _) => r matches Err(e) && is_validation_error(
                e,
                "to"@,
                Seq::empty(),
                "--to flag required (comma-separated languages)"@,
            ),
            (Some(_), None) => r matches Err(e) && is_validation_error(e, "agent"@, Seq::empty(), "--agent flag required"@),
            (Some(t), Some(a)) => r matches Ok(resp) && resp.source@ == "cli::agent_translate"@ && resp.data@
                == translate_text(args@[0]@, t, a),
        },
{
    let key = first_arg(
        args,
        "agent:translate",
        "Missing source_key argument. Usage: reed agent:translate <source_key> --to <lang> --agent <id>",
    )?;
    let to = flag_or_missing(flags, "to", "to", "--to flag required (comma-separated languages)")?;
    let agent = flag_or_missing(flags, "agent", "agent", "--agent flag required")?;
    let langs = split_to_strings(to.as_str(), ',');
    let ghost lv = split_on(to@, ',');
    assert(strings_view(langs@) =~= lv);
    let mut out = str_to_string("🌐 AI Translation\n\n");
    push_str(&mut out, "Source key: ");
    push_str(&mut out, key.as_str());
    push_str(&mut out, "\n");
    push_str(&mut out, "Target languages: ");
    let joined = join_strings(&langs, ", ");
    push_str(&mut out, joined.as_str());
    push_str(&mut out, "\n");
    push_str(&mut out, "Agent: ");
    push_str(&mut out, agent.as_str());
    push_str(&mut out, "\n\n");
    push_str(&mut out, "⚠ Translation not yet available (requires REED-20-01)\n");
    push_str(&mut out, "   MCP integration will enable AI-powered translation.\n\n");
    push_str(&mut out, "Would translate to:\n");
    let ghost head = out@;
    let mut i: usize = 0;
    while i < langs.len()
        invariant
            i <= langs@.len(),
            lv == strings_view(langs@),
            out@ == head + translate_lines(lv.take(i as int), key@),
        decreases langs.len() - i,
    {
        proof {
            assert(lv.take(i + 1).drop_last() =~= lv.take(i as int));
            assert(lv.take(i + 1).last() == langs@[i as int]@);
        }
        let mut rep = str_to_string("@");
        push_str(&mut rep, langs[i].as_str());
        proof {
            reveal_strlit("@de");
        }
        let line_key = replace_str(key.as_str(), "@de", rep.as_str());
        push_str(&mut out, "- ");
        push_str(&mut out, langs[i].as_str());
        push_str(&mut out, ": ");
        push_str(&mut out, line_key.as_str());
        push_str(&mut out, "\n");
        assert(out@ =~= head + translate_lines(lv.take(i + 1), key@));
        i += 1;
    }
    assert(lv.take(i as int) =~= lv);
    Ok(ReedResponse::new(out, "cli::agent_translate"))
}

} // verus!
