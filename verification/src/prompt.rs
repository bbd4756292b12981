//! The system prompt: a default body (or an override) followed by the live tool list.
use vstd::prelude::*;
use vstd::string::StringExecFns;
use crate::mcp::McpTool;

verus! {

/// The default body after the opening words and the site label.
pub const BODY_REST: &'static str = ", representing Mykolay Chelabchi (MC Soft Solution). \
Visitors clicked \"Chat with me\" to ask about MC Soft's services, this site, pricing, or to start \
a project.\n\n\
Tone: warm, concise, plain-spoken. No hype. Short paragraphs.\n\n\
Rules:\n\
- For any factual question about MC Soft (services, pricing, contact, blog, portfolio), CALL THE \
TOOLS below. Do not invent details. Quote tool results faithfully.\n\
- Refer to MC Soft as \"we\"/\"I\" (Mykolay is the sole engineer).\n\
- For \"how do I hire you / start a project\", point to https://mcsoftsolution.com/contact and the \
three engagement tiers (free demo, free private pilot, $5–8K starter sprint).\n\
- Don't promise timelines unless the visitor gives you scope.\n\
- Refuse off-topic asks politely (\"I'm here to talk about MC Soft\").\n";

/// `" on the <label>"` where a site label is set.
pub open spec fn surface(site_label: Option<Seq<char>>) -> Seq<char> {
    match site_label {
        Some(l) => " on the "@ + l,
        None => Seq::empty(),
    }
}

/// The default system prompt body.
pub open spec fn default_body_v(site_label: Option<Seq<char>>) -> Seq<char> {
    "You are a friendly assistant"@ + surface(site_label) + BODY_REST@
}

/// The heading of the tool list.
pub open spec fn tools_heading() -> Seq<char> {
    "\n\nAvailable tools (live, via MC Soft's public MCP server):\n"@
}

/// One line per tool: `"- name: description\n"`.
pub open spec fn tool_lines(tools: Seq<McpTool>) -> Seq<char>
    decreases tools.len(),
{
    if tools.len() == 0 {
        Seq::empty()
    } else {
        tool_lines(tools.drop_last()) + "- "@ + tools.last().name@ + ": "@ + tools.last().description@ + "\n"@
    }
}

/// The system prompt: the override where one is given, else the default
/// body; then, where there are tools, the heading and one line per tool.
pub open spec fn system_prompt(override_text: Option<Seq<char>>, site_label: Option<Seq<char>>, tools: Seq<McpTool>) -> Seq<char> {
    let head = match override_text {
        Some(t) => t,
        None => default_body_v(site_label),
    };
    if tools.len() == 0 { head } else { head + tools_heading() + tool_lines(tools) }
}

/// `Option<&str>` by its text.
pub open spec fn opt_str(o: Option<&str>) -> Option<Seq<char>> {
    match o {
        Some(s) => Some(s@),
        None => None,
    }
}

/// The default system prompt body, naming the site where a label is given.
pub fn default_body(site_label: Option<&str>) -> (r: String)
    ensures
        r@ == default_body_v(opt_str(site_label)),
{
    let mut out = String::from_str("You are a friendly assistant");
    match site_label {
        Some(l) => {
            out.append(" on the ");
            out.append(l);
        },
        None => {},
    }
    out.append(BODY_REST);
    proof {
        match site_label {
            Some(l) => assert(out@ =~= "You are a friendly assistant"@ + (" on the "@ + l@) + BODY_REST@),
            None => assert(out@ =~= "You are a friendly assistant"@ + Seq::<char>::empty() + BODY_REST@),
        }
    }
    out
}

/// Builds the system prompt for a turn. An override replaces the default body
/// entirely; the live tool list is always appended, so that the model is
/// grounded in what it can actually call.
pub fn build(override_text: Option<&str>, site_label: Option<&str>, tools: &[McpTool]) -> (r: String)
    ensures
        r@ == system_prompt(opt_str(override_text), opt_str(site_label), tools@),
{
    let mut out = match override_text {
        Some(text) => String::from_str(text),
        None => default_body(site_label),
    };
    if tools.len() > 0 {
        let ghost head = out@;
        out.append("\n\nAvailable tools (live, via MC Soft's public MCP server):\n");
        let mut k: usize = 0;
        while k < tools.len()
            invariant
                k <= tools@.len(),
                out@ == head + tools_heading() + tool_lines(tools@.take(k as int)),
            decreases tools.len() - k,
        {
            proof {
                assert(tools@.take(k + 1).drop_last() =~= tools@.take(k as int));
            }
            let ghost before = out@;
            out.append("- ");
            out.append(tools[k].name.as_str());
            out.append(": ");
            out.append(tools[k].description.as_str());
            out.append("\n");
            proof {
                assert(out@ =~= before + "- "@ + tools@[k as int].name@ + ": "@ + tools@[k as int].description@ + "\n"@);
            }
            k += 1;
        }
        proof {
            assert(tools@.take(tools@.len() as int) =~= tools@);
        }
    }
    out
}

/// Where there are tools, the prompt is its head (the override, or the
/// default body without one) followed by a blank line, the heading of the
/// tool list and one line per tool, in order; without tools it is the head
/// alone.
pub proof fn lemma_prompt_layout(override_text: Option<Seq<char>>, site_label: Option<Seq<char>>, tools: Seq<McpTool>)
    ensures
        override_text matches Some(t) ==> system_prompt(override_text, site_label, tools) == if tools.len() == 0 { t } else {
            t + "\n\nAvailable tools (live, via MC Soft's public MCP server):\n"@ + tool_lines(tools)
        },
        override_text is None ==> system_prompt(override_text, site_label, tools) == if tools.len() == 0 {
            default_body_v(site_label)
        } else {
            default_body_v(site_label) + "\n\nAvailable tools (live, via MC Soft's public MCP server):\n"@ + tool_lines(tools)
        },
        forall|t: McpTool| #[trigger] tool_lines(tools.push(t)) == tool_lines(tools) + "- "@ + t.name@ + ": "@ + t.description@ + "\n"@,
{
    assert forall|t: McpTool| #[trigger] tool_lines(tools.push(t)) == tool_lines(tools) + "- "@ + t.name@ + ": "@ + t.description@ + "\n"@ by {
        assert(tools.push(t).drop_last() =~= tools);
    }
}

/// The line of one tool in the prompt.
pub open spec fn tool_line(t: McpTool) -> Seq<char> {
    "- "@ + t.name@ + ": "@ + t.description@ + "\n"@
}

proof fn lemma_tool_lines_contain(tools: Seq<McpTool>, i: int)
    requires
        0 <= i < tools.len(),
    ensures
        crate::text::occurs_in(tool_line(tools[i]), tool_lines(tools)),
    decreases tools.len(),
{
    let init = tools.drop_last();
    let last = tools.last();
    assert(tool_lines(tools) =~= tool_lines(init) + tool_line(last));
    if i == tools.len() - 1 {
        let w = tool_lines(init).len() as int;
        assert(tool_lines(tools).subrange(w, w + tool_line(tools[i]).len()) =~= tool_line(tools[i]));
    } else {
        lemma_tool_lines_contain(init, i);
        assert(init[i] == tools[i]);
        let w = choose|w: int| 0 <= w && w + tool_line(tools[i]).len() <= tool_lines(init).len()
            && #[trigger] tool_lines(init).subrange(w, w + tool_line(tools[i]).len()) == tool_line(tools[i]);
        assert(tool_lines(tools).subrange(w, w + tool_line(tools[i]).len()) =~= tool_lines(init).subrange(w, w + tool_line(tools[i]).len()));
    }
}

/// The prompt starts with the override (or, without one, the default body),
/// and every tool offered is listed in it as `- name: description`.
pub proof fn lemma_prompt_grounded(override_text: Option<Seq<char>>, site_label: Option<Seq<char>>, tools: Seq<McpTool>)
    ensures
        crate::text::is_prefix(
            match override_text { Some(t) => t, None => default_body_v(site_label) },
            system_prompt(override_text, site_label, tools),
        ),
        forall|i: int| 0 <= i < tools.len() ==>
            crate::text::occurs_in(tool_line(#[trigger] tools[i]), system_prompt(override_text, site_label, tools)),
{
    let head = match override_text { Some(t) => t, None => default_body_v(site_label) };
    let p = system_prompt(override_text, site_label, tools);
    assert(p.take(head.len() as int) =~= head);
    assert forall|i: int| 0 <= i < tools.len() implies
        crate::text::occurs_in(tool_line(#[trigger] tools[i]), p) by {
        lemma_tool_lines_contain(tools, i);
        let line = tool_line(tools[i]);
        let w = choose|w: int| 0 <= w && w + line.len() <= tool_lines(tools).len()
            && #[trigger] tool_lines(tools).subrange(w, w + line.len()) == line;
        let off = head.len() + tools_heading().len();
        assert(p =~= head + tools_heading() + tool_lines(tools));
        assert(p.subrange(off + w, off + w + line.len()) =~= tool_lines(tools).subrange(w, w + line.len()));
    }
}

} // verus!
