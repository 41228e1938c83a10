use vstd::prelude::*;
use crate::jsontext::str_eq;
use crate::prefixed::{find_char_nl, has_prefix, str_has_prefix};
use crate::textscan::{contains_ci, contains_ci_sub, find_sub, first_occurrence,
    lemma_first_occurrence, remove_all, remove_all_sub, trim_chars, trim_str};

verus! {

/// The greatest index a first line feed can have.
pub proof fn lemma_find_char_nl_le(s: Seq<char>)
    ensures
        find_char_nl(s) <= s.len(),
    decreases s.len(),
{
    if s.len() > 0 && s[0] != '\n' {
        lemma_find_char_nl_le(s.skip(1));
    }
}

/// A line as the line splitter delivers it: without a trailing carriage
/// return.
pub open spec fn strip_cr(line: Seq<char>) -> Seq<char> {
    if line.len() > 0 && line.last() == '\r' {
        line.drop_last()
    } else {
        line
    }
}

/// The lines of `s`, split at line feeds, each without its line ending;
/// a trailing line feed opens no further line.
pub open spec fn split_lines(s: Seq<char>) -> Seq<Seq<char>>
    decreases s.len(),
    via split_lines_decreases
{
    if s.len() == 0 {
        Seq::<Seq<char>>::empty()
    } else {
        let i = find_char_nl(s);
        if i == s.len() {
            seq![strip_cr(s)]
        } else {
            seq![strip_cr(s.take(i as int))] + split_lines(s.skip(i as int + 1))
        }
    }
}

#[via_fn]
proof fn split_lines_decreases(s: Seq<char>) {
    lemma_find_char_nl_le(s);
}

/// The lines joined back with line feeds.
pub open spec fn join_lines(ls: Seq<Seq<char>>) -> Seq<char>
    decreases ls.len(),
{
    if ls.len() == 0 {
        Seq::<char>::empty()
    } else if ls.len() == 1 {
        ls[0]
    } else {
        ls[0] + seq!['\n'] + join_lines(ls.skip(1))
    }
}

/// The position of the first line feed of `s`, or its length.
fn find_nl_char(s: &str) -> (r: usize)
    ensures
        r == find_char_nl(s@),
{
    let sl = s.unicode_len();
    let mut i: usize = 0;
    while i < sl && s.get_char(i) != '\n'
        invariant
            0 <= i <= sl,
            sl == s@.len(),
            forall|k: int| 0 <= k < i ==> s@[k] != '\n',
        decreases sl - i,
    {
        i = i + 1;
    }
    proof {
        crate::prefixed::lemma_find_char_nl_at(s@, i as int);
    }
    i
}

/// Split `s` into its lines.
pub fn split_lines_vec(s: &str) -> (r: Vec<String>)
    ensures
        r.deep_view() == split_lines(s@),
{
    let mut out: Vec<String> = Vec::new();
    let mut cur = s.to_owned();
    proof {
        assert(out.deep_view() =~= Seq::<Seq<char>>::empty());
    }
    loop
        invariant
            split_lines(s@) == out.deep_view() + split_lines(cur@),
        decreases cur@.len(),
    {
        let cl = cur.as_str().unicode_len();
        if cl == 0 {
            proof {
                assert(split_lines(s@) =~= out.deep_view());
            }
            return out;
        }
        let i = find_nl_char(cur.as_str());
        let ghost before = out.deep_view();
        if i == cl {
            let line = strip_cr_str(cur.as_str());
            out.push(line);
            proof {
                assert(out.deep_view() =~= before.push(strip_cr(cur@)));
                assert(split_lines(cur@) =~= seq![strip_cr(cur@)]);
                assert(split_lines(s@) =~= out.deep_view());
            }
            return out;
        }
        proof {
            lemma_find_char_nl_le(cur@);
        }
        let head = cur.as_str().substring_char(0, i);
        let line = strip_cr_str(head);
        out.push(line);
        let tail = cur.as_str().substring_char(i + 1, cl).to_owned();
        proof {
            assert(head@ =~= cur@.take(i as int));
            assert(tail@ =~= cur@.skip(i as int + 1));
            assert(out.deep_view() =~= before.push(strip_cr(cur@.take(i as int))));
            assert(split_lines(cur@) =~= seq![strip_cr(cur@.take(i as int))] + split_lines(
                cur@.skip(i as int + 1),
            ));
            assert(split_lines(s@) =~= out.deep_view() + split_lines(tail@));
        }
        cur = tail;
    }
}

/// `line` without a trailing carriage return.
fn strip_cr_str(line: &str) -> (r: String)
    ensures
        r@ == strip_cr(line@),
{
    let n = line.unicode_len();
    if n > 0 && line.get_char(n - 1) == '\r' {
        let t = line.substring_char(0, n - 1);
        proof {
            assert(t@ =~= line@.drop_last());
        }
        t.to_owned()
    } else {
        line.to_owned()
    }
}

/// Joining one more line appends a separator and the line.
proof fn lemma_join_push(ls: Seq<Seq<char>>, x: Seq<char>)
    ensures
        join_lines(ls.push(x)) == if ls.len() == 0 {
            x
        } else {
            join_lines(ls) + seq!['\n'] + x
        },
    decreases ls.len(),
{
    let p = ls.push(x);
    if ls.len() == 0 {
        assert(p.len() == 1);
        assert(p[0] == x);
    } else {
        lemma_join_push(ls.skip(1), x);
        assert(p.skip(1) =~= ls.skip(1).push(x));
        if ls.len() == 1 {
            assert(p.len() == 2);
            assert(join_lines(p) == p[0] + seq!['\n'] + join_lines(p.skip(1)));
            assert(p.skip(1).len() == 1);
            assert(join_lines(p.skip(1)) == p.skip(1)[0]);
            assert(p.skip(1)[0] == x);
            assert(join_lines(ls) == ls[0]);
            assert(p[0] == ls[0]);
        } else {
            assert(join_lines(p) == p[0] + seq!['\n'] + join_lines(p.skip(1)));
            assert(join_lines(p.skip(1)) == join_lines(ls.skip(1)) + seq!['\n'] + x);
            assert(join_lines(ls) == ls[0] + seq!['\n'] + join_lines(ls.skip(1)));
            assert(p[0] + seq!['\n'] + (join_lines(ls.skip(1)) + seq!['\n'] + x) =~= (ls[0]
                + seq!['\n'] + join_lines(ls.skip(1))) + seq!['\n'] + x);
        }
    }
}

/// Join the lines from position `from` on with line feeds.
pub fn join_lines_vec(lines: &Vec<String>, from: usize) -> (r: String)
    requires
        from <= lines@.len(),
    ensures
        r@ == join_lines(lines.deep_view().skip(from as int)),
{
    let ghost dv = lines.deep_view();
    let mut out = String::new();
    let mut i = from;
    proof {
        assert(dv.subrange(from as int, from as int) =~= Seq::<Seq<char>>::empty());
        assert(out@ =~= join_lines(dv.subrange(from as int, from as int)));
    }
    while i < lines.len()
        invariant
            from <= i <= lines@.len(),
            dv == lines.deep_view(),
            out@ == join_lines(dv.subrange(from as int, i as int)),
        decreases lines@.len() - i,
    {
        if i > from {
            out.append("\n");
        }
        out.append(lines[i].as_str());
        proof {
            reveal_strlit("\n");
            assert("\n"@.len() == 1 && "\n"@[0] == '\n');
            assert("\n"@ =~= seq!['\n']);
            let part = dv.subrange(from as int, i as int);
            assert(dv.subrange(from as int, i + 1) =~= part.push(dv[i as int]));
            lemma_join_push(part, dv[i as int]);
            assert(dv[i as int] == lines[i as int]@);
            assert(out@ =~= join_lines(dv.subrange(from as int, i + 1)));
        }
        i = i + 1;
    }
    proof {
        assert(dv.subrange(from as int, lines@.len() as int) =~= dv.skip(from as int));
    }
    out
}

/// A line the cleaner treats as leading explanatory noise: blank, or
/// opening like prose rather than code.
pub open spec fn noisy_line(line: Seq<char>) -> bool {
    let t = trim_chars(line);
    ||| t.len() == 0
    ||| has_prefix(t, "Here"@)
    ||| has_prefix(t, "I "@)
    ||| has_prefix(t, "This "@)
    ||| has_prefix(t, "The "@)
    ||| has_prefix(t, "Note:"@)
    ||| has_prefix(t, "Explanation:"@)
    ||| has_prefix(t, "Code completion:"@)
    ||| has_prefix(t, "Completion:"@)
    ||| has_prefix(t, "Output:"@)
}

/// How many leading lines of `ls` are noise.
pub open spec fn noisy_prefix_len(ls: Seq<Seq<char>>) -> int
    decreases ls.len(),
{
    if ls.len() == 0 {
        0
    } else if noisy_line(ls[0]) {
        1 + noisy_prefix_len(ls.skip(1))
    } else {
        0
    }
}

/// Whether this line is leading explanatory noise.
fn is_noisy_line(line: &str) -> (r: bool)
    ensures
        r == noisy_line(line@),
{
    let t = trim_str(line);
    let ts = t.as_str();
    ts.unicode_len() == 0 || str_has_prefix(ts, "Here") || str_has_prefix(ts, "I ")
        || str_has_prefix(ts, "This ") || str_has_prefix(ts, "The ") || str_has_prefix(ts, "Note:")
        || str_has_prefix(ts, "Explanation:") || str_has_prefix(ts, "Code completion:")
        || str_has_prefix(ts, "Completion:") || str_has_prefix(ts, "Output:")
}

/// How many characters of `s` are ASCII.
pub open spec fn count_ascii(s: Seq<char>) -> nat
    decreases s.len(),
{
    if s.len() == 0 {
        0nat
    } else {
        count_ascii(s.drop_last()) + if (s.last() as u32) < 128 {
            1nat
        } else {
            0nat
        }
    }
}

/// Count the ASCII characters of `s`.
fn count_ascii_chars(s: &str) -> (r: usize)
    ensures
        r == count_ascii(s@),
        r <= s@.len(),
{
    let sl = s.unicode_len();
    let mut n: usize = 0;
    let mut i: usize = 0;
    proof {
        assert(s@.take(0) =~= Seq::<char>::empty());
    }
    while i < sl
        invariant
            0 <= i <= sl,
            sl == s@.len(),
            n <= i,
            n == count_ascii(s@.take(i as int)),
        decreases sl - i,
    {
        let c = s.get_char(i);
        proof {
            assert(s@.take(i + 1).drop_last() =~= s@.take(i as int));
            assert(s@.take(i + 1).last() == s@[i as int]);
        }
        if (c as u32) < 128 {
            n = n + 1;
        }
        i = i + 1;
    }
    proof {
        assert(s@.take(sl as int) =~= s@);
    }
    n
}


/// How many leading lines of `ls` are noise, pinned by a witness.
proof fn lemma_noisy_prefix(ls: Seq<Seq<char>>, k: int)
    requires
        0 <= k <= ls.len(),
        forall|j: int| 0 <= j < k ==> noisy_line(#[trigger] ls[j]),
        k < ls.len() ==> !noisy_line(ls[k]),
    ensures
        noisy_prefix_len(ls) == k,
    decreases ls.len(),
{
    if ls.len() > 0 && noisy_line(ls[0]) {
        assert(k >= 1);
        assert(forall|j: int| 0 <= j < k - 1 ==> ls.skip(1)[j] == ls[j + 1]);
        lemma_noisy_prefix(ls.skip(1), k - 1);
    }
}

/// Parts joined with a separator.
pub open spec fn join_with(ls: Seq<Seq<char>>, sep: Seq<char>) -> Seq<char>
    decreases ls.len(),
{
    if ls.len() == 0 {
        Seq::<char>::empty()
    } else if ls.len() == 1 {
        ls[0]
    } else {
        ls[0] + sep + join_with(ls.skip(1), sep)
    }
}

/// Joining one more part appends the separator and the part.
proof fn lemma_join_with_push(ls: Seq<Seq<char>>, x: Seq<char>, sep: Seq<char>)
    ensures
        join_with(ls.push(x), sep) == if ls.len() == 0 {
            x
        } else {
            join_with(ls, sep) + sep + x
        },
    decreases ls.len(),
{
    let p = ls.push(x);
    if ls.len() == 0 {
        assert(p[0] == x);
    } else {
        lemma_join_with_push(ls.skip(1), x, sep);
        assert(p.skip(1) =~= ls.skip(1).push(x));
        if ls.len() == 1 {
            assert(join_with(p, sep) == p[0] + sep + join_with(p.skip(1), sep));
            assert(join_with(p.skip(1), sep) == p.skip(1)[0]);
            assert(p.skip(1)[0] == x);
        } else {
            assert(join_with(p, sep) == p[0] + sep + join_with(p.skip(1), sep));
            assert(p[0] + sep + (join_with(ls.skip(1), sep) + sep + x) =~= (ls[0] + sep
                + join_with(ls.skip(1), sep)) + sep + x);
        }
    }
}

/// Join `parts` with `", "`.
pub fn join_comma(parts: &Vec<String>) -> (r: String)
    ensures
        r@ == join_with(parts.deep_view(), ", "@),
{
    let ghost dv = parts.deep_view();
    let mut out = String::new();
    let mut i: usize = 0;
    proof {
        assert(dv.subrange(0, 0) =~= Seq::<Seq<char>>::empty());
        assert(out@ =~= join_with(dv.subrange(0, 0), ", "@));
    }
    while i < parts.len()
        invariant
            0 <= i <= parts@.len(),
            dv == parts.deep_view(),
            out@ == join_with(dv.subrange(0, i as int), ", "@),
        decreases parts@.len() - i,
    {
        if i > 0 {
            out.append(", ");
        }
        out.append(parts[i].as_str());
        proof {
            let part = dv.subrange(0, i as int);
            assert(dv.subrange(0, i + 1) =~= part.push(dv[i as int]));
            lemma_join_with_push(part, dv[i as int], ", "@);
            assert(dv[i as int] == parts[i as int]@);
            assert(out@ =~= join_with(dv.subrange(0, i + 1), ", "@));
        }
        i = i + 1;
    }
    proof {
        assert(dv.subrange(0, parts@.len() as int) =~= dv);
    }
    out
}

/// The prompt sent to the completion model.
///
/// Models with a fill-in-middle mode get their own markers around the
/// prefix; anything else gets an instruction preamble. The prefix is an
/// optional column comment, the surrounding context, and the line under
/// the cursor.
pub open spec fn spec_build_prompt(
    model: Seq<char>,
    context: Seq<char>,
    cursor_line: Seq<char>,
    columns: Seq<Seq<char>>,
) -> Seq<char> {
    let columns_comment = if columns.len() == 0 {
        Seq::<char>::empty()
    } else {
        "# columns: "@ + join_with(columns, ", "@) + "\n"@
    };
    let prefix = columns_comment + context + cursor_line;
    if contains_ci(model, "qwen"@) && contains_ci(model, "coder"@) {
        "<|fim_prefix|>"@ + prefix + "<|fim_suffix|><|fim_middle|>"@
    } else if contains_ci(model, "starcoder"@) {
        "<fim_prefix>"@ + prefix + "<fim_suffix><fim_middle>"@
    } else if contains_ci(model, "codellama"@) {
        "<PRE> "@ + prefix + " <SUF> <MID>"@
    } else {
        "You are a code completion assistant. Complete the following Python code.\nRules:\n- Output ONLY the code that comes next\n- Do NOT include any explanation or comments\n- Do NOT repeat the existing code\n- Output raw code only, no markdown\n\nCode:\n"@
            + prefix + "\n\nCompletion:"@
    }
}

/// Build the completion prompt for `model`.
pub fn build_prompt(
    model: &str,
    context: &str,
    cursor_line: &str,
    columns: &Vec<String>,
) -> (r: String)
    ensures
        r@ == spec_build_prompt(model@, context@, cursor_line@, columns.deep_view()),
{
    let mut prefix = String::new();
    if columns.len() > 0 {
        prefix.append("# columns: ");
        let joined = join_comma(columns);
        prefix.append(joined.as_str());
        prefix.append("\n");
    }
    prefix.append(context);
    prefix.append(cursor_line);
    let mut out: String;
    if contains_ci_sub(model, "qwen") && contains_ci_sub(model, "coder") {
        out = "<|fim_prefix|>".to_owned();
        out.append(prefix.as_str());
        out.append("<|fim_suffix|><|fim_middle|>");
    } else if contains_ci_sub(model, "starcoder") {
        out = "<fim_prefix>".to_owned();
        out.append(prefix.as_str());
        out.append("<fim_suffix><fim_middle>");
    } else if contains_ci_sub(model, "codellama") {
        out = "<PRE> ".to_owned();
        out.append(prefix.as_str());
        out.append(" <SUF> <MID>");
    } else {
        out =
            "You are a code completion assistant. Complete the following Python code.\nRules:\n- Output ONLY the code that comes next\n- Do NOT include any explanation or comments\n- Do NOT repeat the existing code\n- Output raw code only, no markdown\n\nCode:\n".to_owned();
        out.append(prefix.as_str());
        out.append("\n\nCompletion:");
    }
    proof {
        assert(out@ =~= spec_build_prompt(model@, context@, cursor_line@, columns.deep_view()));
    }
    out
}

/// The completion with the markers of the model family that produced it
/// removed.
pub open spec fn spec_strip_markers(s: Seq<char>, model: Seq<char>) -> Seq<char> {
    if contains_ci(model, "deepseek"@) {
        remove_all(
            remove_all(remove_all(s, "<\u{ff5c}fim\u{2581}end\u{ff5c}>"@), "<\u{ff5c}fim\u{2581}begin\u{ff5c}>"@),
            "<\u{ff5c}fim\u{2581}hole\u{ff5c}>"@,
        )
    } else if contains_ci(model, "starcoder"@) {
        remove_all(remove_all(remove_all(s, "<fim_middle>"@), "<fim_suffix>"@), "<fim_prefix>"@)
    } else if contains_ci(model, "qwen"@) {
        remove_all(
            remove_all(remove_all(remove_all(s, "<|fim_middle|>"@), "<|fim_suffix|>"@), "<|fim_prefix|>"@),
            "<|endoftext|>"@,
        )
    } else {
        s
    }
}

/// The content of the first fenced code block, if the completion came
/// wrapped in one; the whole text otherwise.
pub open spec fn spec_extract_markdown(s: Seq<char>) -> Seq<char> {
    let sp = first_occurrence(s, "```python"@);
    if sp >= 0 {
        let after = s.skip(sp + 9);
        let e = first_occurrence(after, "```"@);
        if e >= 0 {
            trim_chars(after.take(e))
        } else {
            s
        }
    } else {
        let st = first_occurrence(s, "```"@);
        if st >= 0 {
            let after = s.skip(st + 3);
            let e = first_occurrence(after, "```"@);
            if e >= 0 {
                trim_chars(after.take(e))
            } else {
                s
            }
        } else {
            s
        }
    }
}

/// The cleaned completion: marker and markdown stripping, the
/// non-ASCII gate, leading prose removal, and a final trim.
///
/// A response of more than ten characters in which non-ASCII characters
/// outnumber ASCII ones is taken for prose in another language and
/// discarded entirely. Leading lines are dropped while they are blank
/// or open like an explanation, unless every line would go — then the
/// text is left as it stands.
pub open spec fn spec_clean_response(raw: Seq<char>, model: Seq<char>) -> Seq<char> {
    let a = spec_strip_markers(raw, model);
    let b = spec_extract_markdown(a);
    let c = remove_all(remove_all(b, "```python"@), "```"@);
    if c.len() > 10 && 2 * count_ascii(c) < c.len() {
        Seq::<char>::empty()
    } else {
        let ls = split_lines(c);
        let k = noisy_prefix_len(ls);
        let d = if k < ls.len() {
            join_lines(ls.skip(k))
        } else {
            c
        };
        trim_chars(d)
    }
}

/// Clean one raw completion from `model`.
pub fn clean_response(raw: &str, model: &str) -> (r: String)
    ensures
        r@ == spec_clean_response(raw@, model@),
{
    proof {
        reveal_strlit("<\u{ff5c}fim\u{2581}end\u{ff5c}>");
        reveal_strlit("<\u{ff5c}fim\u{2581}begin\u{ff5c}>");
        reveal_strlit("<\u{ff5c}fim\u{2581}hole\u{ff5c}>");
        reveal_strlit("<fim_middle>");
        reveal_strlit("<fim_suffix>");
        reveal_strlit("<fim_prefix>");
        reveal_strlit("<|fim_middle|>");
        reveal_strlit("<|fim_suffix|>");
        reveal_strlit("<|fim_prefix|>");
        reveal_strlit("<|endoftext|>");
        reveal_strlit("```python");
        reveal_strlit("```");
    }
    let a: String;
    if contains_ci_sub(model, "deepseek") {
        let a1 = remove_all_sub(raw, "<\u{ff5c}fim\u{2581}end\u{ff5c}>");
        let a2 = remove_all_sub(a1.as_str(), "<\u{ff5c}fim\u{2581}begin\u{ff5c}>");
        a = remove_all_sub(a2.as_str(), "<\u{ff5c}fim\u{2581}hole\u{ff5c}>");
    } else if contains_ci_sub(model, "starcoder") {
        let a1 = remove_all_sub(raw, "<fim_middle>");
        let a2 = remove_all_sub(a1.as_str(), "<fim_suffix>");
        a = remove_all_sub(a2.as_str(), "<fim_prefix>");
    } else if contains_ci_sub(model, "qwen") {
        let a1 = remove_all_sub(raw, "<|fim_middle|>");
        let a2 = remove_all_sub(a1.as_str(), "<|fim_suffix|>");
        let a3 = remove_all_sub(a2.as_str(), "<|fim_prefix|>");
        a = remove_all_sub(a3.as_str(), "<|endoftext|>");
    } else {
        a = raw.to_owned();
    }
    let ghost aspec = spec_strip_markers(raw@, model@);
    let b: String;
    match find_sub(a.as_str(), "```python") {
        Some(sp) => {
            let al = a.as_str().unicode_len();
            proof {
                lemma_first_occurrence(a@, "```python"@);
            }
            let after = a.as_str().substring_char(sp + 9, al);
            proof {
                assert(after@ =~= a@.skip(sp as int + 9));
            }
            match find_sub(after, "```") {
                Some(e) => {
                    proof {
                        lemma_first_occurrence(after@, "```"@);
                    }
                    let piece = after.substring_char(0, e);
                    proof {
                        assert(piece@ =~= after@.take(e as int));
                    }
                    b = trim_str(piece);
                }
                None => {
                    b = a;
                }
            }
        }
        None => {
            match find_sub(a.as_str(), "```") {
                Some(st) => {
                    let al = a.as_str().unicode_len();
                    proof {
                        lemma_first_occurrence(a@, "```"@);
                    }
                    let after = a.as_str().substring_char(st + 3, al);
                    proof {
                        assert(after@ =~= a@.skip(st as int + 3));
                    }
                    match find_sub(after, "```") {
                        Some(e) => {
                            proof {
                                lemma_first_occurrence(after@, "```"@);
                            }
                            let piece = after.substring_char(0, e);
                            proof {
                                assert(piece@ =~= after@.take(e as int));
                            }
                            b = trim_str(piece);
                        }
                        None => {
                            b = a;
                        }
                    }
                }
                None => {
                    b = a;
                }
            }
        }
    }
    let c1 = remove_all_sub(b.as_str(), "```python");
    let c = remove_all_sub(c1.as_str(), "```");
    let total = c.as_str().unicode_len();
    let ascii = count_ascii_chars(c.as_str());
    if total > 10 && ascii < total - ascii {
        return String::new();
    }
    let lines = split_lines_vec(c.as_str());
    let ghost ls = split_lines(c@);
    let mut k: usize = 0;
    while k < lines.len() && is_noisy_line(lines[k].as_str())
        invariant
            0 <= k <= lines@.len(),
            lines.deep_view() == ls,
            forall|j: int| 0 <= j < k ==> noisy_line(#[trigger] ls[j]),
        decreases lines@.len() - k,
    {
        proof {
            assert(ls[k as int] == lines[k as int]@);
        }
        k = k + 1;
    }
    proof {
        if k < lines@.len() {
            assert(ls[k as int] == lines[k as int]@);
        }
        lemma_noisy_prefix(ls, k as int);
    }
    let d: String;
    if k < lines.len() {
        d = join_lines_vec(&lines, k);
    } else {
        d = c;
    }
    trim_str(d.as_str())
}

/// The set of completion requests still wanted by their callers.
///
/// A request is registered before its network call goes out, removed
/// when it completes, and removed early to cancel it: the call then
/// observes the missing registration and abandons its result.
pub struct ActiveRequests {
    ids: Vec<String>,
}

impl ActiveRequests {
    /// The registered identifiers.
    pub closed spec fn view(&self) -> Set<Seq<char>> {
        self.ids.deep_view().to_set()
    }

    /// Each identifier is registered at most once.
    pub closed spec fn wf(&self) -> bool {
        forall|i: int, j: int|
            0 <= i < j < self.ids.deep_view().len() ==> #[trigger] self.ids.deep_view()[i]
                != #[trigger] self.ids.deep_view()[j]
    }

    pub fn new() -> (s: Self)
        ensures
            s@ == Set::<Seq<char>>::empty(),
            s.wf(),
    {
        let s = ActiveRequests { ids: Vec::new() };
        proof {
            assert(s.ids.deep_view().len() == 0);
            assert(s@ =~= Set::<Seq<char>>::empty());
        }
        s
    }

    /// The position of `id` in the list, or the list's length.
    fn position_of(&self, id: &str) -> (r: usize)
        ensures
            r <= self.ids.deep_view().len(),
            r < self.ids.deep_view().len() ==> self.ids.deep_view()[r as int] == id@,
            forall|j: int| 0 <= j < r ==> self.ids.deep_view()[j] != id@,
    {
        let mut i: usize = 0;
        while i < self.ids.len()
            invariant
                0 <= i <= self.ids@.len(),
                self.ids.deep_view().len() == self.ids@.len(),
                forall|j: int| 0 <= j < i ==> self.ids.deep_view()[j] != id@,
            decreases self.ids@.len() - i,
        {
            if str_eq(self.ids[i].as_str(), id) {
                proof {
                    assert(self.ids.deep_view()[i as int] == self.ids[i as int]@);
                }
                return i;
            }
            proof {
                assert(self.ids.deep_view()[i as int] == self.ids[i as int]@);
            }
            i = i + 1;
        }
        i
    }

    /// Whether `id` is still wanted.
    pub fn is_request_active(&self, id: &str) -> (r: bool)
        ensures
            r == self@.contains(id@),
    {
        let p = self.position_of(id);
        let found = p < self.ids.len();
        proof {
            let dv = self.ids.deep_view();
            if found {
                assert(dv.contains(id@)) by {
                    assert(dv[p as int] == id@);
                }
            } else {
                if dv.contains(id@) {
                    let w = choose|w: int| 0 <= w < dv.len() && dv[w] == id@;
                    assert(dv[w] != id@);
                }
            }
        }
        found
    }

    /// Register `id` as wanted. Registering it twice changes nothing.
    pub fn register_request(&mut self, id: &str)
        requires
            old(self).wf(),
        ensures
            final(self)@ == old(self)@.insert(id@),
            final(self).wf(),
    {
        let p = self.position_of(id);
        if p < self.ids.len() {
            proof {
                let dv = self.ids.deep_view();
                assert(dv.contains(id@)) by {
                    assert(dv[p as int] == id@);
                }
                assert(self@ =~= self@.insert(id@));
            }
            return;
        }
        let ghost dv0 = self.ids.deep_view();
        self.ids.push(id.to_owned());
        proof {
            let dv = self.ids.deep_view();
            assert(dv =~= dv0.push(id@));
            assert(dv.to_set() =~= dv0.to_set().insert(id@)) by {
                assert forall|a: Seq<char>| dv.to_set().contains(a) implies dv0.to_set().insert(
                    id@,
                ).contains(a) by {
                    let w = choose|w: int| 0 <= w < dv.len() && dv[w] == a;
                    if w < dv0.len() {
                        assert(dv0[w] == a);
                    }
                }
                assert forall|a: Seq<char>| dv0.to_set().insert(id@).contains(a) implies dv.to_set().contains(
                    a,
                ) by {
                    if a == id@ {
                        assert(dv[dv.len() - 1] == a);
                    } else {
                        let w = choose|w: int| 0 <= w < dv0.len() && dv0[w] == a;
                        assert(dv[w] == a);
                    }
                }
            }
            assert forall|i: int, j: int|
                0 <= i < j < dv.len() implies #[trigger] dv[i] != #[trigger] dv[j] by {
                if j < dv0.len() {
                    assert(dv0[i] == dv[i] && dv0[j] == dv[j]);
                } else {
                    assert(dv[j] == id@);
                    assert(dv0[i] == dv[i]);
                    if dv[i] == id@ {
                        assert(dv0[i] == id@);
                    }
                }
            }
        }
    }

    /// Remove `id`: it is no longer wanted. Removing an unregistered
    /// identifier changes nothing.
    pub fn unregister_request(&mut self, id: &str)
        requires
            old(self).wf(),
        ensures
            final(self)@ == old(self)@.remove(id@),
            final(self).wf(),
    {
        let p = self.position_of(id);
        if p >= self.ids.len() {
            proof {
                let dv = self.ids.deep_view();
                if dv.contains(id@) {
                    let w = choose|w: int| 0 <= w < dv.len() && dv[w] == id@;
                    assert(dv[w] != id@);
                }
                assert(self@ =~= self@.remove(id@));
            }
            return;
        }
        let ghost dv0 = self.ids.deep_view();
        self.ids.remove(p);
        proof {
            let dv = self.ids.deep_view();
            assert(dv =~= dv0.remove(p as int));
            assert(dv0[p as int] == id@);
            assert(dv.to_set() =~= dv0.to_set().remove(id@)) by {
                assert forall|a: Seq<char>| dv.to_set().contains(a) implies dv0.to_set().remove(
                    id@,
                ).contains(a) by {
                    let w = choose|w: int| 0 <= w < dv.len() && dv[w] == a;
                    let w0 = if w < p as int {
                        w
                    } else {
                        w + 1
                    };
                    assert(dv0[w0] == a);
                    if a == id@ {
                        assert(dv0[w0] == dv0[p as int]);
                        if w0 < p as int {
                            assert(dv0[w0] != dv0[p as int]);
                        } else {
                            assert(dv0[p as int] != dv0[w0]);
                        }
                    }
                }
                assert forall|a: Seq<char>| dv0.to_set().remove(id@).contains(a) implies dv.to_set().contains(
                    a,
                ) by {
                    let w = choose|w: int| 0 <= w < dv0.len() && dv0[w] == a;
                    if w < p as int {
                        assert(dv[w] == a);
                    } else {
                        assert(w != p as int);
                        assert(dv[w - 1] == a);
                    }
                }
            }
            assert forall|i: int, j: int|
                0 <= i < j < dv.len() implies #[trigger] dv[i] != #[trigger] dv[j] by {
                let i0 = if i < p as int {
                    i
                } else {
                    i + 1
                };
                let j0 = if j < p as int {
                    j
                } else {
                    j + 1
                };
                assert(dv[i] == dv0[i0] && dv[j] == dv0[j0]);
                assert(dv0[i0] != dv0[j0]);
            }
        }
    }

    /// Cancel `id`: the same removal, named for the caller that gives
    /// up on a request rather than completing it.
    pub fn cancel_request(&mut self, id: &str)
        requires
            old(self).wf(),
        ensures
            final(self)@ == old(self)@.remove(id@),
            final(self).wf(),
    {
        self.unregister_request(id);
    }
}

} // verus!
