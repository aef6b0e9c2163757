//! Conversation audit helpers: message sanitizing, conversation fingerprints
//! and message previews.
//!
//! With auditing enabled the proxy stores a sanitized copy of each request:
//! images become a placeholder, long texts are cut, cache markers are
//! dropped; a fingerprint of the first three messages groups requests of one
//! conversation.

use vstd::prelude::*;
use crate::ir::{
    blocks_view, lemma_blocks_view_index, lemma_blocks_view_len, push_block, BlockV, IrContentBlock,
    IrMessage, IrRole, IrToolResultContent, MessageV, ToolResultV,
};
use crate::text::{
    chars_of, remove_all, remove_all_chars, string_from_chars, trim, trim_spec, truncate_spec,
};

verus! {

/// The longest text block kept, in characters.
pub const MAX_TEXT_LEN: usize = 10000;

/// The characters of each message's text that enter a fingerprint.
pub const FINGERPRINT_TRUNCATE: usize = 200;

/// The length of a message preview, in characters.
pub const PREVIEW_MAX_LEN: usize = 100;

pub open spec fn image_placeholder() -> BlockV {
    BlockV::Text { text: "[image]"@, cache_control: None }
}

/// A block, sanitized: images become `[image]`, texts are cut to
/// `MAX_TEXT_LEN` characters without cache markers, tool results are
/// sanitized inside at every depth, and anything else is kept.
pub open spec fn sanitize_block(b: BlockV) -> BlockV
    decreases b,
{
    match b {
        BlockV::Image { .. } => image_placeholder(),
        BlockV::Text { text, .. } => BlockV::Text {
            text: truncate_spec(text, MAX_TEXT_LEN as int),
            cache_control: None,
        },
        BlockV::ToolResult { tool_use_id, content, is_error } => BlockV::ToolResult {
            tool_use_id,
            content: sanitize_result(content),
            is_error,
        },
        _ => b,
    }
}

/// The content of a tool result, sanitized: a text is cut, blocks are
/// sanitized one by one.
pub open spec fn sanitize_result(c: ToolResultV) -> ToolResultV
    decreases c,
{
    match c {
        ToolResultV::Text(t) => ToolResultV::Text(truncate_spec(t, MAX_TEXT_LEN as int)),
        ToolResultV::Blocks(bs) => ToolResultV::Blocks(sanitize_blocks(bs)),
    }
}

pub open spec fn sanitize_blocks(bs: Seq<BlockV>) -> Seq<BlockV>
    decreases bs,
{
    if bs.len() == 0 {
        Seq::empty()
    } else {
        sanitize_blocks(bs.drop_last()).push(sanitize_block(bs.last()))
    }
}

/// Whether an image sits in a block, at any depth.
pub open spec fn block_has_image(b: BlockV) -> bool
    decreases b,
{
    match b {
        BlockV::Image { .. } => true,
        BlockV::ToolResult { content, .. } => result_has_image(content),
        _ => false,
    }
}

pub open spec fn result_has_image(c: ToolResultV) -> bool
    decreases c,
{
    match c {
        ToolResultV::Text(_) => false,
        ToolResultV::Blocks(bs) => blocks_have_image(bs),
    }
}

pub open spec fn blocks_have_image(bs: Seq<BlockV>) -> bool
    decreases bs,
{
    if bs.len() == 0 {
        false
    } else {
        blocks_have_image(bs.drop_last()) || block_has_image(bs.last())
    }
}

/// A sanitized block holds no image at any depth, and sanitizing it again
/// changes nothing.
pub proof fn lemma_sanitize_block(b: BlockV)
    ensures
        !block_has_image(sanitize_block(b)),
        sanitize_block(sanitize_block(b)) == sanitize_block(b),
    decreases b,
{
    reveal_strlit("[image]");
    match b {
        BlockV::ToolResult { content, .. } => {
            lemma_sanitize_result(content);
        },
        BlockV::Text { text, .. } => {
            assert(truncate_spec(truncate_spec(text, MAX_TEXT_LEN as int), MAX_TEXT_LEN as int)
                =~= truncate_spec(text, MAX_TEXT_LEN as int));
        },
        _ => {},
    }
}

pub proof fn lemma_sanitize_result(c: ToolResultV)
    ensures
        !result_has_image(sanitize_result(c)),
        sanitize_result(sanitize_result(c)) == sanitize_result(c),
    decreases c,
{
    match c {
        ToolResultV::Blocks(bs) => {
            lemma_sanitize_blocks(bs);
        },
        ToolResultV::Text(t) => {
            assert(truncate_spec(truncate_spec(t, MAX_TEXT_LEN as int), MAX_TEXT_LEN as int)
                =~= truncate_spec(t, MAX_TEXT_LEN as int));
        },
    }
}

pub proof fn lemma_sanitize_blocks(bs: Seq<BlockV>)
    ensures
        !blocks_have_image(sanitize_blocks(bs)),
        sanitize_blocks(sanitize_blocks(bs)) == sanitize_blocks(bs),
    decreases bs,
{
    if bs.len() > 0 {
        lemma_sanitize_blocks(bs.drop_last());
        lemma_sanitize_block(bs.last());
        let t = sanitize_blocks(bs);
        assert(t.drop_last() =~= sanitize_blocks(bs.drop_last()));
    }
}

pub open spec fn sanitize_message(m: MessageV) -> MessageV {
    MessageV { role: m.role, content: m.content.map_values(|b: BlockV| sanitize_block(b)) }
}

/// Sanitizing is done once and for all: a sanitized conversation holds no
/// image at any depth, and sanitizing it again gives it back unchanged.
pub proof fn law_sanitize_messages(ms: Seq<MessageV>)
    ensures
        ({
            let once = ms.map_values(|m: MessageV| sanitize_message(m));
            &&& once.map_values(|m: MessageV| sanitize_message(m)) == once
            &&& forall|i: int, j: int|
                0 <= i < once.len() && 0 <= j < once[i].content.len() ==> !block_has_image(
                    #[trigger] once[i].content[j],
                )
        }),
{
    let once = ms.map_values(|m: MessageV| sanitize_message(m));
    assert forall|i: int, j: int|
        0 <= i < once.len() && 0 <= j < once[i].content.len() implies !block_has_image(
            #[trigger] once[i].content[j],
        ) by {
        lemma_sanitize_block(ms[i].content[j]);
    }
    assert forall|i: int| 0 <= i < once.len() implies #[trigger] sanitize_message(once[i]) == once[i] by {
        let c = ms[i].content;
        assert forall|j: int| 0 <= j < c.len() implies sanitize_block(sanitize_block(#[trigger] c[j]))
            == sanitize_block(c[j]) by {
            lemma_sanitize_block(c[j]);
        }
        assert(sanitize_message(once[i]).content =~= once[i].content);
    }
    assert(once.map_values(|m: MessageV| sanitize_message(m)) =~= once);
}

pub open spec fn messages_view(ms: Seq<IrMessage>) -> Seq<MessageV> {
    ms.map_values(|m: IrMessage| m@)
}

fn placeholder_exec() -> (r: IrContentBlock)
    ensures
        r@ == image_placeholder(),
{
    IrContentBlock::Text { text: "[image]".to_owned(), cache_control: None }
}

/// The content of a tool result, sanitized, images removed at every depth.
pub fn sanitize_tool_result(content: &IrToolResultContent) -> (r: IrToolResultContent)
    ensures
        match (content, r) {
            (IrToolResultContent::Text(t), IrToolResultContent::Text(u)) => sanitize_result(
                ToolResultV::Text(t@),
            ) == ToolResultV::Text(u@),
            (IrToolResultContent::Blocks(bs), IrToolResultContent::Blocks(us)) => sanitize_result(
                ToolResultV::Blocks(blocks_view(bs@)),
            ) == ToolResultV::Blocks(blocks_view(us@)),
            _ => false,
        },
    decreases content,
{
    match content {
        IrToolResultContent::Text(t) => IrToolResultContent::Text(
            crate::text::truncate_chars(t.as_str(), MAX_TEXT_LEN),
        ),
        IrToolResultContent::Blocks(bs) => {
            let mut out: Vec<IrContentBlock> = Vec::new();
            let mut i: usize = 0;
            while i < bs.len()
                invariant
                    i <= bs@.len(),
                    *content == IrToolResultContent::Blocks(*bs),
                    blocks_view(out@) == sanitize_blocks(blocks_view(bs@).take(i as int)),
                decreases bs@.len() - i,
            {
                proof {
                    lemma_blocks_view_index(bs@, i as int);
                    lemma_blocks_view_len(bs@);
                    assert(decreases_to!(*content => (*content)->Blocks_0));
                    assert(decreases_to!((*content)->Blocks_0 => (*content)->Blocks_0@));
                    assert(decreases_to!((*content)->Blocks_0@ => (*content)->Blocks_0@[i as int]));
                }
                let nb = sanitize_block_exec(&bs[i]);
                push_block(&mut out, nb);
                proof {
                    let x = blocks_view(bs@);
                    assert(x.take(i as int + 1).drop_last() =~= x.take(i as int));
                    assert(x.take(i as int + 1).last() == x[i as int]);
                }
                i = i + 1;
            }
            proof {
                lemma_blocks_view_len(bs@);
                assert(blocks_view(bs@).take(i as int) =~= blocks_view(bs@));
            }
            IrToolResultContent::Blocks(out)
        },
    }
}

fn sanitize_block_exec(b: &IrContentBlock) -> (r: IrContentBlock)
    ensures
        r@ == sanitize_block(b@),
    decreases b,
{
    match b {
        IrContentBlock::Image { .. } => placeholder_exec(),
        IrContentBlock::Text { text, .. } => IrContentBlock::Text {
            text: crate::text::truncate_chars(text.as_str(), MAX_TEXT_LEN),
            cache_control: None,
        },
        IrContentBlock::ToolResult { tool_use_id, content, is_error } => {
            proof {
                assert(decreases_to!(*b => (*b)->ToolResult_content));
            }
            IrContentBlock::ToolResult {
                tool_use_id: tool_use_id.clone(),
                content: sanitize_tool_result(content),
                is_error: *is_error,
            }
        },
        _ => b.copy(),
    }
}

/// Sanitizes messages for storage: each block as `sanitize_block` says, in
/// order, roles kept.
pub fn sanitize_messages(messages: &[IrMessage]) -> (r: Vec<IrMessage>)
    ensures
        messages_view(r@) == messages_view(messages@).map_values(|m: MessageV| sanitize_message(m)),
{
    let mut out: Vec<IrMessage> = Vec::new();
    let mut i: usize = 0;
    while i < messages.len()
        invariant
            i <= messages@.len(),
            messages_view(out@) == messages_view(messages@).take(i as int).map_values(
                |m: MessageV| sanitize_message(m),
            ),
        decreases messages@.len() - i,
    {
        let msg = &messages[i];
        let mut content: Vec<IrContentBlock> = Vec::new();
        let mut k: usize = 0;
        while k < msg.content.len()
            invariant
                k <= msg.content@.len(),
                blocks_view(content@) == blocks_view(msg.content@).take(k as int).map_values(
                    |b: BlockV| sanitize_block(b),
                ),
            decreases msg.content@.len() - k,
        {
            proof {
                lemma_blocks_view_index(msg.content@, k as int);
            }
            let nb = sanitize_block_exec(&msg.content[k]);
            push_block(&mut content, nb);
            proof {
                assert(blocks_view(msg.content@).take(k as int + 1).map_values(
                    |b: BlockV| sanitize_block(b),
                ) =~= blocks_view(msg.content@).take(k as int).map_values(|b: BlockV| sanitize_block(b)).push(
                    sanitize_block(blocks_view(msg.content@)[k as int]),
                ));
            }
            k = k + 1;
        }
        proof {
            lemma_blocks_view_len(msg.content@);
            assert(blocks_view(msg.content@).take(k as int) =~= blocks_view(msg.content@));
        }
        let ghost before = messages_view(out@);
        let m = IrMessage { role: msg.role, content };
        let ghost mv = m@;
        out.push(m);
        proof {
            assert(mv == sanitize_message(msg@));
            assert(messages_view(out@) =~= before.push(mv));
            assert(messages_view(messages@).take(i as int + 1).map_values(
                |m: MessageV| sanitize_message(m),
            ) =~= messages_view(messages@).take(i as int).map_values(|m: MessageV| sanitize_message(m)).push(
                sanitize_message(messages@[i as int]@),
            ));
        }
        i = i + 1;
    }
    proof {
        assert(messages_view(messages@).take(i as int) =~= messages_view(messages@));
    }
    out
}

/// The text of all text blocks of a message, in order.
pub open spec fn text_of_blocks(bs: Seq<BlockV>) -> Seq<char>
    decreases bs.len(),
{
    if bs.len() == 0 {
        Seq::empty()
    } else {
        text_of_blocks(bs.drop_last()) + match bs.last() {
            BlockV::Text { text, .. } => text,
            _ => Seq::empty(),
        }
    }
}

pub open spec fn message_text(m: MessageV) -> Seq<char> {
    text_of_blocks(m.content)
}

/// The text of a message: its text blocks joined.
pub fn extract_text(msg: &IrMessage) -> (r: String)
    ensures
        r@ == message_text(msg@),
{
    let mut out = String::new();
    let mut i: usize = 0;
    while i < msg.content.len()
        invariant
            i <= msg.content@.len(),
            out@ == text_of_blocks(blocks_view(msg.content@).take(i as int)),
        decreases msg.content@.len() - i,
    {
        proof {
            lemma_blocks_view_index(msg.content@, i as int);
            assert(blocks_view(msg.content@).take(i as int + 1).drop_last() =~= blocks_view(
                msg.content@,
            ).take(i as int));
        }
        match &msg.content[i] {
            IrContentBlock::Text { text, .. } => {
                out.append(text.as_str());
            },
            _ => {
                proof {
                    assert(out@ =~= out@ + Seq::<char>::empty());
                }
            },
        }
        i = i + 1;
    }
    proof {
        lemma_blocks_view_len(msg.content@);
        assert(blocks_view(msg.content@).take(i as int) =~= blocks_view(msg.content@));
    }
    out
}

pub open spec fn role_spec(r: IrRole) -> Seq<char> {
    match r {
        IrRole::User => "user"@,
        IrRole::Assistant => "assistant"@,
    }
}

/// The name of a role.
pub fn role_str(role: &IrRole) -> (r: &'static str)
    ensures
        r@ == role_spec(*role),
{
    match role {
        IrRole::User => "user",
        IrRole::Assistant => "assistant",
    }
}

/// Cuts a string to its first `max` characters.
pub fn truncate_chars(s: &str, max: usize) -> (r: String)
    ensures
        r@ == truncate_spec(s@, max as int),
{
    crate::text::truncate_chars(s, max)
}

/// The tags that clients inject into message text, each removed from a
/// preview.
pub open spec fn system_tags() -> Seq<Seq<char>> {
    seq![
        "<system-reminder>"@,
        "</system-reminder>"@,
        "<total_tokens>"@,
        "</total_tokens>"@,
        "<local-command-caveat>"@,
        "</local-command-caveat>"@,
        "<local-command-stdout>"@,
        "</local-command-stdout>"@,
        "<task-notification>"@,
        "</task-notification>"@,
    ]
}

/// `s` with every tag of `tags` removed, one tag after another.
pub open spec fn strip_tags_spec(s: Seq<char>, tags: Seq<Seq<char>>) -> Seq<char>
    decreases tags.len(),
{
    if tags.len() == 0 {
        s
    } else {
        strip_tags_spec(remove_all(s, tags[0]), tags.drop_first())
    }
}

/// Removing a pattern that does not occur changes nothing.
pub proof fn lemma_remove_absent(s: Seq<char>, p: Seq<char>)
    requires
        p.len() > 0,
        !crate::text::contains_seq(s, p),
    ensures
        crate::text::remove_all(s, p) == s,
    decreases s.len(),
{
    if s.len() >= p.len() {
        assert(s.take(p.len() as int) =~= s.subrange(0, 0 + p.len() as int));
        let t = s.drop_first();
        if crate::text::contains_seq(t, p) {
            let i = choose|i: int| 0 <= i <= t.len() - p.len() && #[trigger] t.subrange(i, i + p.len()) == p;
            assert(s.subrange(i + 1, i + 1 + p.len()) =~= t.subrange(i, i + p.len()));
        }
        lemma_remove_absent(t, p);
        assert(seq![s[0]] + t =~= s);
    }
}

/// Whether none of the tags occurs in a text.
pub open spec fn no_tags(s: Seq<char>, tags: Seq<Seq<char>>) -> bool {
    forall|k: int| 0 <= k < tags.len() ==> !crate::text::contains_seq(s, #[trigger] tags[k])
}

proof fn lemma_strip_absent(s: Seq<char>, tags: Seq<Seq<char>>)
    requires
        no_tags(s, tags),
        forall|k: int| 0 <= k < tags.len() ==> (#[trigger] tags[k]).len() > 0,
    ensures
        strip_tags_spec(s, tags) == s,
    decreases tags.len(),
{
    if tags.len() > 0 {
        assert(tags[0].len() > 0);
        lemma_remove_absent(s, tags[0]);
        assert forall|k: int| 0 <= k < tags.drop_first().len() implies !crate::text::contains_seq(
            s,
            #[trigger] tags.drop_first()[k],
        ) by {
            assert(tags.drop_first()[k] == tags[k + 1]);
        }
        assert forall|k: int| 0 <= k < tags.drop_first().len() implies (
        #[trigger] tags.drop_first()[k]).len() > 0 by {
            assert(tags.drop_first()[k] == tags[k + 1]);
        }
        lemma_strip_absent(s, tags.drop_first());
    }
}

/// Tag stripping leaves a text without tags as it is: where the last
/// message's text holds none of the tags, its preview is the raw preview.
pub proof fn law_untagged_preview(ms: Seq<MessageV>)
    requires
        ms.len() > 0 ==> no_tags(message_text(ms.last()), system_tags()),
    ensures
        last_preview(ms) == last_preview_raw(ms),
{
    if ms.len() > 0 {
        reveal_strlit("<system-reminder>");
        reveal_strlit("</system-reminder>");
        reveal_strlit("<total_tokens>");
        reveal_strlit("</total_tokens>");
        reveal_strlit("<local-command-caveat>");
        reveal_strlit("</local-command-caveat>");
        reveal_strlit("<local-command-stdout>");
        reveal_strlit("</local-command-stdout>");
        reveal_strlit("<task-notification>");
        reveal_strlit("</task-notification>");
        let t = system_tags();
        assert forall|k: int| 0 <= k < t.len() implies (#[trigger] t[k]).len() > 0 by {
            assert(t[0].len() > 0 && t[1].len() > 0 && t[2].len() > 0 && t[3].len() > 0 && t[4].len() > 0);
            assert(t[5].len() > 0 && t[6].len() > 0 && t[7].len() > 0 && t[8].len() > 0 && t[9].len() > 0);
        }
        lemma_strip_absent(message_text(ms.last()), t);
    }
}

fn remove_tag(cs: Vec<char>, tag: &str) -> (r: Vec<char>)
    requires
        tag@.len() > 0,
    ensures
        r@ == remove_all(cs@, tag@),
{
    let p = chars_of(tag);
    remove_all_chars(&cs, &p)
}

/// Removes the injected system tags from a text.
pub fn strip_system_tags(text: &str) -> (r: String)
    ensures
        r@ == strip_tags_spec(text@, system_tags()),
{
    proof {
        reveal_strlit("<system-reminder>");
        reveal_strlit("</system-reminder>");
        reveal_strlit("<total_tokens>");
        reveal_strlit("</total_tokens>");
        reveal_strlit("<local-command-caveat>");
        reveal_strlit("</local-command-caveat>");
        reveal_strlit("<local-command-stdout>");
        reveal_strlit("</local-command-stdout>");
        reveal_strlit("<task-notification>");
        reveal_strlit("</task-notification>");
    }
    let ghost t = system_tags();
    let c0 = chars_of(text);
    let c1 = remove_tag(c0, "<system-reminder>");
    let c2 = remove_tag(c1, "</system-reminder>");
    let c3 = remove_tag(c2, "<total_tokens>");
    let c4 = remove_tag(c3, "</total_tokens>");
    let c5 = remove_tag(c4, "<local-command-caveat>");
    let c6 = remove_tag(c5, "</local-command-caveat>");
    let c7 = remove_tag(c6, "<local-command-stdout>");
    let c8 = remove_tag(c7, "</local-command-stdout>");
    let c9 = remove_tag(c8, "<task-notification>");
    let c10 = remove_tag(c9, "</task-notification>");
    proof {
        assert(strip_tags_spec(c10@, t.skip(10)) == c10@);
        assert(t.skip(9).drop_first() =~= t.skip(10));
        assert(t.skip(8).drop_first() =~= t.skip(9));
        assert(t.skip(7).drop_first() =~= t.skip(8));
        assert(t.skip(6).drop_first() =~= t.skip(7));
        assert(t.skip(5).drop_first() =~= t.skip(6));
        assert(t.skip(4).drop_first() =~= t.skip(5));
        assert(t.skip(3).drop_first() =~= t.skip(4));
        assert(t.skip(2).drop_first() =~= t.skip(3));
        assert(t.skip(1).drop_first() =~= t.skip(2));
        assert(t.drop_first() =~= t.skip(1));
        assert(strip_tags_spec(c9@, t.skip(9)) == c10@);
        assert(strip_tags_spec(c8@, t.skip(8)) == c10@);
        assert(strip_tags_spec(c7@, t.skip(7)) == c10@);
        assert(strip_tags_spec(c6@, t.skip(6)) == c10@);
        assert(strip_tags_spec(c5@, t.skip(5)) == c10@);
        assert(strip_tags_spec(c4@, t.skip(4)) == c10@);
        assert(strip_tags_spec(c3@, t.skip(3)) == c10@);
        assert(strip_tags_spec(c2@, t.skip(2)) == c10@);
        assert(strip_tags_spec(c1@, t.skip(1)) == c10@);
        assert(strip_tags_spec(c0@, t) == c10@);
    }
    string_from_chars(c10.as_slice())
}

/// The preview of the first message from the user: its text cut to
/// `PREVIEW_MAX_LEN` characters; empty where no message is from the user.
pub open spec fn first_user_preview(ms: Seq<MessageV>) -> Seq<char>
    decreases ms.len(),
{
    if ms.len() == 0 {
        Seq::empty()
    } else if ms[0].role == IrRole::User {
        truncate_spec(message_text(ms[0]), PREVIEW_MAX_LEN as int)
    } else {
        first_user_preview(ms.drop_first())
    }
}

/// The preview of the first message from the user.
pub fn extract_first_user_message(messages: &[IrMessage]) -> (r: String)
    ensures
        r@ == first_user_preview(messages_view(messages@)),
{
    let ghost mv = messages_view(messages@);
    let mut i: usize = 0;
    proof {
        assert(mv.skip(0) =~= mv);
    }
    while i < messages.len()
        invariant
            i <= messages@.len(),
            mv == messages_view(messages@),
            first_user_preview(mv) == first_user_preview(mv.skip(i as int)),
        decreases messages@.len() - i,
    {
        proof {
            assert(mv.skip(i as int)[0] == messages@[i as int]@);
            assert(mv.skip(i as int).drop_first() =~= mv.skip(i as int + 1));
        }
        if messages[i].role == IrRole::User {
            let text = extract_text(&messages[i]);
            return crate::text::truncate_chars(text.as_str(), PREVIEW_MAX_LEN);
        }
        i = i + 1;
    }
    proof {
        assert(mv.skip(i as int).len() == 0);
    }
    String::new()
}

/// The preview of the last message, without injected tags: its text with
/// the tags removed, trimmed, cut to `PREVIEW_MAX_LEN` characters; empty
/// where there are no messages.
pub open spec fn last_preview(ms: Seq<MessageV>) -> Seq<char> {
    if ms.len() == 0 {
        Seq::empty()
    } else {
        truncate_spec(
            trim_spec(strip_tags_spec(message_text(ms.last()), system_tags())),
            PREVIEW_MAX_LEN as int,
        )
    }
}

/// The preview of the last message as written: trimmed and cut.
pub open spec fn last_preview_raw(ms: Seq<MessageV>) -> Seq<char> {
    if ms.len() == 0 {
        Seq::empty()
    } else {
        truncate_spec(trim_spec(message_text(ms.last())), PREVIEW_MAX_LEN as int)
    }
}

/// The preview of the last message, without injected tags.
pub fn extract_last_message(messages: &[IrMessage]) -> (r: String)
    ensures
        r@ == last_preview(messages_view(messages@)),
{
    let n = messages.len();
    if n == 0 {
        return String::new();
    }
    let text = extract_text(&messages[n - 1]);
    let stripped = strip_system_tags(text.as_str());
    let trimmed = trim(stripped.as_str());
    crate::text::truncate_chars(trimmed.as_str(), PREVIEW_MAX_LEN)
}

/// The preview of the last message as written.
pub fn extract_last_message_raw(messages: &[IrMessage]) -> (r: String)
    ensures
        r@ == last_preview_raw(messages_view(messages@)),
{
    let n = messages.len();
    if n == 0 {
        return String::new();
    }
    let text = extract_text(&messages[n - 1]);
    let trimmed = trim(text.as_str());
    crate::text::truncate_chars(trimmed.as_str(), PREVIEW_MAX_LEN)
}

/// What a fingerprint hashes: the service key id, then for each of the
/// first three messages `:`, its role, `:` and its text cut to
/// `FINGERPRINT_TRUNCATE` characters.
pub open spec fn fingerprint_material(key: Seq<char>, ms: Seq<MessageV>) -> Seq<char>
    decreases ms.len(),
{
    if ms.len() == 0 {
        key
    } else {
        let m = ms.last();
        fingerprint_material(key, ms.drop_last()) + ":"@ + role_spec(m.role) + ":"@ + truncate_spec(
            message_text(m),
            FINGERPRINT_TRUNCATE as int,
        )
    }
}

pub open spec fn first_three(ms: Seq<MessageV>) -> Seq<MessageV> {
    if ms.len() <= 3 {
        ms
    } else {
        ms.take(3)
    }
}

/// The fingerprint of a conversation: the SHA-256 of its material, in hex.
pub fn compute_fingerprint(service_key_id: &str, messages: &[IrMessage]) -> (r: String)
    ensures
        r@ == crate::outside::sha256_hex(
            fingerprint_material(service_key_id@, first_three(messages_view(messages@))),
        ),
{
    let ghost mv = messages_view(messages@);
    let take: usize = if messages.len() <= 3 {
        messages.len()
    } else {
        3
    };
    let mut material = service_key_id.to_owned();
    let mut i: usize = 0;
    while i < take
        invariant
            i <= take,
            take <= messages@.len(),
            take == first_three(mv).len(),
            mv == messages_view(messages@),
            material@ == fingerprint_material(service_key_id@, mv.take(i as int)),
        decreases take - i,
    {
        proof {
            assert(mv.take(i as int + 1).drop_last() =~= mv.take(i as int));
            assert(mv.take(i as int + 1).last() == messages@[i as int]@);
        }
        material.append(":");
        material.append(role_str(&messages[i].role));
        material.append(":");
        let text = extract_text(&messages[i]);
        let cut = crate::text::truncate_chars(text.as_str(), FINGERPRINT_TRUNCATE);
        material.append(cut.as_str());
        i = i + 1;
    }
    proof {
        assert(first_three(mv) =~= mv.take(take as int));
    }
    crate::outside::sha256_hex_of(material.as_str())
}

/// A conversation is known by its key and its first three messages: two
/// conversations of one key that begin with the same three messages share
/// a fingerprint, whatever follows.
pub proof fn law_fingerprint_uses_first_three(key: Seq<char>, a: Seq<MessageV>, b: Seq<MessageV>)
    requires
        a.len() >= 3,
        b.len() >= 3,
        a.take(3) == b.take(3),
    ensures
        crate::outside::sha256_hex(fingerprint_material(key, first_three(a)))
            == crate::outside::sha256_hex(fingerprint_material(key, first_three(b))),
{
    assert(first_three(a) =~= a.take(3));
    assert(first_three(b) =~= b.take(3));
}

} // verus!
