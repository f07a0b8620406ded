//! Start-up pieces of the terminal interface: the built-in prompt texts
//! and the image format used for pasted screenshots.

use vstd::prelude::*;
use crate::text::{decimal, u64_to_string};

verus! {

/// The instructions sent with the two built-in model requests.
#[derive(Debug)]
pub struct PromptTemplate {
    /// Rewriting the user's input into a clearer task description.
    pub optimize_input: String,
    /// Compressing the conversation so far into a summary.
    pub compress_context: String,
}

pub open spec fn optimize_input_text() -> Seq<char> {
    "请将下面这段用户输入整理为更清晰、更可执行的编程任务描述，保留原始意图，直接输出改写后的任务文本："@
}

pub open spec fn compress_context_text() -> Seq<char> {
    "请你作为当前会话的上下文压缩器，对下面的历史对话做智能语义分析与压缩，输出高质量、可恢复上下文的结构化摘要。\n输出要求：\n1. 只输出摘要正文，不要添加解释。\n2. 使用以下固定结构与标题：\n[会话目标]\n- ...\n[核心意图]\n- ...\n[关键操作]\n- ...\n[重要实体]\n- ...\n[当前状态]\n- ...\n[未完成事项]\n- ...\n[约束与偏好]\n- ...\n3. 提取用户真实目标、已经完成的关键操作、重要文件/模块/链接/命令、当前阻塞点与后续衔接信息。\n4. 删除闲聊、重复表述和低价值细节，保留后续继续工作所需的事实与决策。\n5. 如果历史里已有摘要，请与新对话合并，输出一份更新后的完整摘要。\n\n待压缩内容："@
}

/// The built-in prompt texts.
pub fn user_prompt_template() -> (r: PromptTemplate)
    ensures
        r.optimize_input@ == optimize_input_text(),
        r.compress_context@ == compress_context_text(),
{
    PromptTemplate {
        optimize_input: String::from_str(
            "请将下面这段用户输入整理为更清晰、更可执行的编程任务描述，保留原始意图，直接输出改写后的任务文本：",
        ),
        compress_context: String::from_str(
            "请你作为当前会话的上下文压缩器，对下面的历史对话做智能语义分析与压缩，输出高质量、可恢复上下文的结构化摘要。\n输出要求：\n1. 只输出摘要正文，不要添加解释。\n2. 使用以下固定结构与标题：\n[会话目标]\n- ...\n[核心意图]\n- ...\n[关键操作]\n- ...\n[重要实体]\n- ...\n[当前状态]\n- ...\n[未完成事项]\n- ...\n[约束与偏好]\n- ...\n3. 提取用户真实目标、已经完成的关键操作、重要文件/模块/链接/命令、当前阻塞点与后续衔接信息。\n4. 删除闲聊、重复表述和低价值细节，保留后续继续工作所需的事实与决策。\n5. 如果历史里已有摘要，请与新对话合并，输出一份更新后的完整摘要。\n\n待压缩内容：",
        ),
    }
}

/// The header of a binary PPM image of the given size with 8-bit channels.
pub open spec fn ppm_header(width: nat, height: nat) -> Seq<char> {
    "P6\n"@ + decimal(width) + " "@ + decimal(height) + "\n255\n"@
}

/// The red, green and blue bytes of each four-byte RGBA pixel; a trailing
/// piece of three bytes counts as a pixel, a shorter one is dropped.
pub open spec fn rgb_bytes(rgba: Seq<u8>) -> Seq<u8>
    decreases rgba.len(),
{
    if rgba.len() < 3 {
        Seq::empty()
    } else if rgba.len() < 4 {
        rgba.take(3)
    } else {
        rgba.take(3) + rgb_bytes(rgba.skip(4))
    }
}

proof fn lemma_rgb_step(rgba: Seq<u8>, i: int)
    requires
        0 <= i,
        i + 4 <= rgba.len(),
    ensures
        rgb_bytes(rgba.skip(i)) == rgba.subrange(i, i + 3) + rgb_bytes(rgba.skip(i + 4)),
{
    assert(rgba.skip(i).take(3) =~= rgba.subrange(i, i + 3));
    assert(rgba.skip(i).skip(4) =~= rgba.skip(i + 4));
}

/// A clipboard image as a binary PPM file: the header, then the colour
/// bytes of each pixel (the alpha byte left out).
pub fn encode_ppm(rgba_bytes: &[u8], width: usize, height: usize) -> (r: Vec<u8>)
    ensures
        r@ == ppm_header(width as nat, height as nat).map_values(|c: char| c as u8) + rgb_bytes(rgba_bytes@),
{
    let mut header = String::from_str("P6\n");
    header.append(u64_to_string(width as u64).as_str());
    header.append(" ");
    header.append(u64_to_string(height as u64).as_str());
    header.append("\n255\n");
    let ghost h = header@;
    assert(h == ppm_header(width as nat, height as nat));
    let mut out: Vec<u8> = Vec::new();
    for c in it: header.as_str().chars()
        invariant
            it.seq() == h,
            out@ == h.take(it.index()).map_values(|c: char| c as u8),
    {
        proof {
            assert(h.take(it.index() + 1) =~= h.take(it.index()).push(c));
        }
        out.push(#[verifier::truncate] (c as u8));
        assert(out@ =~= h.take(it.index() + 1).map_values(|c: char| c as u8));
    }
    assert(h.take(h.len() as int) =~= h);
    let ghost head = out@;
    let n = rgba_bytes.len();
    let mut i: usize = 0;
    assert(rgba_bytes@.skip(0) =~= rgba_bytes@);
    while n - i >= 4
        invariant
            n == rgba_bytes@.len(),
            i <= n,
            out@ + rgb_bytes(rgba_bytes@.skip(i as int)) == head + rgb_bytes(rgba_bytes@),
        decreases n - i,
    {
        proof {
            lemma_rgb_step(rgba_bytes@, i as int);
        }
        let ghost before = out@;
        out.push(rgba_bytes[i]);
        out.push(rgba_bytes[i + 1]);
        out.push(rgba_bytes[i + 2]);
        assert(out@ =~= before + rgba_bytes@.subrange(i as int, i + 3));
        assert(out@ + rgb_bytes(rgba_bytes@.skip(i + 4)) =~= before + (rgba_bytes@.subrange(i as int, i + 3)
            + rgb_bytes(rgba_bytes@.skip(i + 4))));
        i = i + 4;
    }
    if n - i >= 3 {
        let ghost before = out@;
        out.push(rgba_bytes[i]);
        out.push(rgba_bytes[i + 1]);
        out.push(rgba_bytes[i + 2]);
        assert(rgba_bytes@.skip(i as int).take(3) =~= rgba_bytes@.subrange(i as int, i + 3));
        assert(out@ =~= before + rgb_bytes(rgba_bytes@.skip(i as int)));
    } else {
        assert(rgb_bytes(rgba_bytes@.skip(i as int)) =~= Seq::<u8>::empty());
        assert(out@ + Seq::<u8>::empty() =~= out@);
    }
    out
}

} // verus!
