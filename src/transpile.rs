//! Conversion of single function files and tag files into Shulkerscript
//! source text.

use vstd::prelude::*;
use crate::text::{
    chars_of, is_white_space, is_word, join, join_with, lines, lines_of, push_all,
    push_str, strip_suffix, views, white_space, without_suffix,
};

verus! {

/// Four spaces, the indentation of a function body.
pub open spec fn indent() -> Seq<char> {
    seq![' ', ' ', ' ', ' ']
}

/// Position `i` of `l` holds the comment marker and only whitespace precedes it.
pub open spec fn comment_at(l: Seq<char>, i: int) -> bool {
    &&& 0 <= i < l.len()
    &&& l[i] == '#'
    &&& forall|j: int| 0 <= j < i ==> is_white_space(l[j])
}

/// The line of a function body that a source line becomes: a comment turns
/// into a doc comment, an empty line stays empty, anything else becomes a
/// literal command.
pub open spec fn body_line(l: Seq<char>) -> Seq<char> {
    if exists|i: int| comment_at(l, i) {
        let i = choose|i: int| comment_at(l, i);
        indent() + l.subrange(0, i) + seq!['/', '/', '/'] + l.subrange(i + 1, l.len() as int)
    } else if l.len() == 0 {
        Seq::empty()
    } else {
        indent() + seq!['/'] + l
    }
}

/// The body of the function made from the source text `src`.
pub open spec fn function_body(src: Seq<char>) -> Seq<char> {
    join(lines_of(src).map_values(|l: Seq<char>| body_line(l)), seq!['\n'])
}

proof fn lemma_comment_at_unique(l: Seq<char>, a: int, b: int)
    requires
        comment_at(l, a),
        comment_at(l, b),
    ensures
        a == b,
{
    if a < b {
        assert(is_white_space(l[a]));
    } else if b < a {
        assert(is_white_space(l[b]));
    }
}

/// Converts one line of a function file into a line of a function body.
pub fn transpile_line(l: &Vec<char>) -> (r: Vec<char>)
    ensures
        r@ == body_line(l@),
{
    let mut i: usize = 0;
    while i < l.len() && white_space(l[i])
        invariant
            i <= l@.len(),
            forall|j: int| 0 <= j < i ==> is_white_space(l@[j]),
        decreases l@.len() - i,
    {
        i = i + 1;
    }
    if i < l.len() && l[i] == '#' {
        assert(comment_at(l@, i as int));
        proof {
            let k = choose|k: int| comment_at(l@, k);
            lemma_comment_at_unique(l@, i as int, k);
        }
        let mut out: Vec<char> = Vec::new();
        push_str(&mut out, "    ");
        proof {
            reveal_strlit("    ");
            assert(out@ =~= indent() + l@.subrange(0, 0));
        }
        let mut j: usize = 0;
        while j < l.len()
            invariant
                i < l@.len(),
                j <= l@.len(),
                j <= i ==> out@ == indent() + l@.subrange(0, j as int),
                j > i ==> out@ == indent() + l@.subrange(0, i as int) + seq!['/', '/', '/']
                    + l@.subrange(i + 1, j as int),
            decreases l@.len() - j,
        {
            proof {
                reveal_strlit("    ");
            }
            if j == i {
                out.push('/');
                out.push('/');
                out.push('/');
                assert(out@ =~= indent() + l@.subrange(0, i as int) + seq!['/', '/', '/']
                    + l@.subrange(i + 1, j + 1));
            } else {
                out.push(l[j]);
                if j < i {
                    assert(out@ =~= indent() + l@.subrange(0, j + 1));
                } else {
                    assert(out@ =~= indent() + l@.subrange(0, i as int) + seq!['/', '/', '/']
                        + l@.subrange(i + 1, j + 1));
                }
            }
            j = j + 1;
        }
        out
    } else {
        assert(!exists|k: int| comment_at(l@, k)) by {
            if exists|k: int| comment_at(l@, k) {
                let k = choose|k: int| comment_at(l@, k);
                if k > i {
                    assert(is_white_space(l@[i as int]));
                }
            }
        }
        let mut out: Vec<char> = Vec::new();
        if l.len() > 0 {
            push_str(&mut out, "    /");
            push_all(&mut out, l);
            proof {
                reveal_strlit("    /");
                assert(out@ =~= indent() + seq!['/'] + l@);
            }
        } else {
            assert(out@ =~= Seq::<char>::empty());
        }
        out
    }
}

/// Converts the text of a function file into the body of a function.
pub fn transpile_function_body(src: &Vec<char>) -> (r: Vec<char>)
    ensures
        r@ == function_body(src@),
{
    let ls = lines(src);
    let mut converted: Vec<Vec<char>> = Vec::new();
    let mut k: usize = 0;
    while k < ls.len()
        invariant
            k <= ls@.len(),
            views(ls@) == lines_of(src@),
            views(converted@) == lines_of(src@).subrange(0, k as int).map_values(
                |l: Seq<char>| body_line(l),
            ),
        decreases ls@.len() - k,
    {
        let ghost before = converted@;
        let line = transpile_line(&ls[k]);
        converted.push(line);
        proof {
            assert(views(ls@)[k as int] == ls@[k as int]@);
            assert(views(converted@) =~= views(before).push(body_line(lines_of(src@)[k as int])));
            assert(views(converted@) =~= lines_of(src@).subrange(0, k + 1).map_values(
                |l: Seq<char>| body_line(l),
            ));
        }
        k = k + 1;
    }
    proof {
        assert(lines_of(src@).subrange(0, ls@.len() as int) =~= lines_of(src@));
    }
    let mut sep: Vec<char> = Vec::new();
    sep.push('\n');
    assert(sep@ =~= seq!['\n']);
    join_with(&converted, &sep)
}

/// `s` with every backslash turned into a forward slash.
pub open spec fn normalize_separators(s: Seq<char>) -> Seq<char> {
    s.map_values(|c: char| if c == '\\' { '/' } else { c })
}

/// A path relative to a source root, separators normalised and the file
/// extension `ext` (with its dot) removed.
pub open spec fn source_path(rel: Seq<char>, ext: Seq<char>) -> Seq<char> {
    strip_suffix(normalize_separators(rel), ext)
}

/// The extension of function files, with its dot.
pub open spec fn function_ext() -> Seq<char> {
    ".mcfunction"@
}

/// The extension of tag files, with its dot.
pub open spec fn tag_ext() -> Seq<char> {
    ".json"@
}

fn normalized(s: &Vec<char>) -> (r: Vec<char>)
    ensures
        r@ == normalize_separators(s@),
{
    let mut out: Vec<char> = Vec::new();
    let mut i: usize = 0;
    while i < s.len()
        invariant
            i <= s@.len(),
            out@ == normalize_separators(s@.subrange(0, i as int)),
        decreases s@.len() - i,
    {
        if s[i] == '\\' {
            out.push('/');
        } else {
            out.push(s[i]);
        }
        i = i + 1;
        assert(out@ =~= normalize_separators(s@.subrange(0, i as int)));
    }
    assert(s@.subrange(0, s@.len() as int) =~= s@);
    out
}

/// The function path of a function file, from its path relative to the
/// function root: separators normalised to `/`, the extension removed.
pub fn function_path(rel: &str) -> (r: Vec<char>)
    ensures
        r@ == source_path(rel@, function_ext()),
{
    let n = normalized(&chars_of(rel));
    without_suffix(&n, ".mcfunction")
}

/// The tag path of a tag file, from its path relative to the directory of
/// its tag type: separators normalised to `/`, the extension removed.
pub fn tag_path(rel: &str) -> (r: Vec<char>)
    ensures
        r@ == source_path(rel@, tag_ext()),
{
    let n = normalized(&chars_of(rel));
    without_suffix(&n, ".json")
}

/// The part of `p` after its last `/` (all of `p` when it has none).
pub open spec fn last_segment(p: Seq<char>) -> Seq<char>
    decreases p.len(),
{
    if p.len() == 0 {
        p
    } else if p.last() == '/' {
        Seq::empty()
    } else {
        last_segment(p.drop_last()).push(p.last())
    }
}

/// ASCII letters and digits.
pub open spec fn is_ascii_alphanumeric(c: char) -> bool {
    ('0' <= c && c <= '9') || ('a' <= c && c <= 'z') || ('A' <= c && c <= 'Z')
}

/// The name of the function at function path `p`: its last segment, each
/// character that is no ASCII letter or digit replaced by `_`.
pub open spec fn function_name_of(p: Seq<char>) -> Seq<char> {
    last_segment(p).map_values(|c: char| if is_ascii_alphanumeric(c) { c } else { '_' })
}

/// Where the last segment of `p` begins.
pub fn last_segment_start(p: &Vec<char>) -> (r: usize)
    ensures
        r <= p@.len(),
        p@.subrange(r as int, p@.len() as int) == last_segment(p@),
{
    let mut start: usize = 0;
    let mut i: usize = 0;
    while i < p.len()
        invariant
            start <= i <= p@.len(),
            last_segment(p@.subrange(0, i as int)) == p@.subrange(start as int, i as int),
        decreases p@.len() - i,
    {
        assert(p@.subrange(0, i + 1).drop_last() =~= p@.subrange(0, i as int));
        if p[i] == '/' {
            start = i + 1;
            assert(p@.subrange(start as int, i + 1) =~= Seq::<char>::empty());
        } else {
            assert(p@.subrange(start as int, i + 1) =~= p@.subrange(start as int, i as int).push(
                p@[i as int],
            ));
        }
        i = i + 1;
    }
    assert(p@.subrange(0, p@.len() as int) =~= p@);
    start
}

/// The name of the function at function path `p`; `None` where that name
/// would be empty.
pub fn function_name(p: &Vec<char>) -> (r: Option<Vec<char>>)
    ensures
        match r {
            Some(n) => n@ == function_name_of(p@) && n@.len() > 0,
            None => function_name_of(p@).len() == 0,
        },
{
    let start = last_segment_start(p);
    if start == p.len() {
        return None;
    }
    let mut out: Vec<char> = Vec::new();
    let mut j: usize = start;
    while j < p.len()
        invariant
            start <= j <= p@.len(),
            out@ == p@.subrange(start as int, j as int).map_values(
                |c: char| if is_ascii_alphanumeric(c) { c } else { '_' },
            ),
        decreases p@.len() - j,
    {
        let c = p[j];
        if ('0' <= c && c <= '9') || ('a' <= c && c <= 'z') || ('A' <= c && c <= 'Z') {
            out.push(c);
        } else {
            out.push('_');
        }
        j = j + 1;
        assert(out@ =~= p@.subrange(start as int, j as int).map_values(
            |c: char| if is_ascii_alphanumeric(c) { c } else { '_' },
        ));
    }
    Some(out)
}

/// The comment that opens every produced source file: the tool version and
/// the file it came from.
pub open spec fn header_line(version: Seq<char>, source: Seq<char>) -> Seq<char> {
    "// This file was automatically migrated by ShulkerScript CLI v"@ + version + " from file \""@
        + source + "\"\n"@
}

/// A Shulkerscript file holding one function: namespace declaration, the
/// `deobfuscate` attribute carrying the function path, and the function.
pub open spec fn function_file_text(
    version: Seq<char>,
    source: Seq<char>,
    namespace: Seq<char>,
    path: Seq<char>,
    name: Seq<char>,
    body: Seq<char>,
) -> Seq<char> {
    header_line(version, source) + "namespace \""@ + namespace + "\";\n\n#[deobfuscate = \""@ + path
        + "\"]\nfn "@ + name + "() {\n"@ + body + "\n}\n"@
}

/// Where the file of a function goes in the produced project.
pub open spec fn function_output_path(namespace: Seq<char>, path: Seq<char>) -> Seq<char> {
    "src/functions/"@ + namespace + "/"@ + path + ".shu"@
}

/// Where the file of a tag goes in the produced project.
pub open spec fn tag_output_path(namespace: Seq<char>, tag_type: Seq<char>, path: Seq<char>) -> Seq<
    char,
> {
    "src/tags/"@ + namespace + "/"@ + tag_type + "/"@ + path + ".shu"@
}

/// Tags of this type hold functions, the domain that needs no qualifier.
pub open spec fn is_function_domain(tag_type: Seq<char>) -> bool {
    tag_type == "function"@ || tag_type == "functions"@
}

/// The ` of "<type>"` part of a tag declaration, empty for function tags.
pub open spec fn tag_qualifier(tag_type: Seq<char>) -> Seq<char> {
    if is_function_domain(tag_type) {
        Seq::empty()
    } else {
        " of \""@ + tag_type + "\""@
    }
}

/// The ` replace` part of a tag declaration.
pub open spec fn replace_word(replace: bool) -> Seq<char> {
    if replace {
        " replace"@
    } else {
        Seq::empty()
    }
}

/// One entry of a tag's value list, indented and quoted.
pub open spec fn quoted_value(v: Seq<char>) -> Seq<char> {
    "    \""@ + v + "\""@
}

/// The characters of each string.
pub open spec fn string_views(v: Seq<String>) -> Seq<Seq<char>> {
    v.map_values(|s: String| s@)
}

/// A tag declaration: quoted path, qualifier, replace flag and the values in
/// their order, one per line.
pub open spec fn tag_declaration(
    path: Seq<char>,
    tag_type: Seq<char>,
    replace: bool,
    values: Seq<Seq<char>>,
) -> Seq<char> {
    "tag \""@ + path + "\""@ + tag_qualifier(tag_type) + replace_word(replace) + " [\n"@ + join(
        values.map_values(|v: Seq<char>| quoted_value(v)),
        ",\n"@,
    ) + "\n]\n"@
}

/// A Shulkerscript file holding one tag declaration.
pub open spec fn tag_file_text(
    version: Seq<char>,
    source: Seq<char>,
    namespace: Seq<char>,
    declaration: Seq<char>,
) -> Seq<char> {
    header_line(version, source) + "namespace \""@ + namespace + "\";\n\n"@ + declaration
}

fn header(version: &str, source: &str) -> (r: Vec<char>)
    ensures
        r@ == header_line(version@, source@),
{
    let mut out: Vec<char> = Vec::new();
    push_str(&mut out, "// This file was automatically migrated by ShulkerScript CLI v");
    push_str(&mut out, version);
    push_str(&mut out, " from file \"");
    push_str(&mut out, source);
    push_str(&mut out, "\"\n");
    assert(out@ =~= header_line(version@, source@));
    out
}

/// The text of the file that holds the function `name` with body `body`.
pub fn function_file(
    version: &str,
    source: &str,
    namespace: &str,
    path: &Vec<char>,
    name: &Vec<char>,
    body: &Vec<char>,
) -> (r: Vec<char>)
    ensures
        r@ == function_file_text(version@, source@, namespace@, path@, name@, body@),
{
    let mut out = header(version, source);
    push_str(&mut out, "namespace \"");
    push_str(&mut out, namespace);
    push_str(&mut out, "\";\n\n#[deobfuscate = \"");
    push_all(&mut out, path);
    push_str(&mut out, "\"]\nfn ");
    push_all(&mut out, name);
    push_str(&mut out, "() {\n");
    push_all(&mut out, body);
    push_str(&mut out, "\n}\n");
    assert(out@ =~= function_file_text(version@, source@, namespace@, path@, name@, body@));
    out
}

/// Where the file of the function at `path` in `namespace` goes.
pub fn function_output(namespace: &str, path: &Vec<char>) -> (r: Vec<char>)
    ensures
        r@ == function_output_path(namespace@, path@),
{
    let mut out: Vec<char> = Vec::new();
    push_str(&mut out, "src/functions/");
    push_str(&mut out, namespace);
    push_str(&mut out, "/");
    push_all(&mut out, path);
    push_str(&mut out, ".shu");
    assert(out@ =~= function_output_path(namespace@, path@));
    out
}

/// Where the file of the tag at `path` of type `tag_type` in `namespace` goes.
pub fn tag_output(namespace: &str, tag_type: &str, path: &Vec<char>) -> (r: Vec<char>)
    ensures
        r@ == tag_output_path(namespace@, tag_type@, path@),
{
    let mut out: Vec<char> = Vec::new();
    push_str(&mut out, "src/tags/");
    push_str(&mut out, namespace);
    push_str(&mut out, "/");
    push_str(&mut out, tag_type);
    push_str(&mut out, "/");
    push_all(&mut out, path);
    push_str(&mut out, ".shu");
    assert(out@ =~= tag_output_path(namespace@, tag_type@, path@));
    out
}

/// The declaration of the tag at `path` of type `tag_type`.
pub fn tag_declaration_text(path: &Vec<char>, tag_type: &str, replace: bool, values: &Vec<String>) -> (r:
    Vec<char>)
    ensures
        r@ == tag_declaration(path@, tag_type@, replace, string_views(values@)),
{
    let mut quoted: Vec<Vec<char>> = Vec::new();
    let mut k: usize = 0;
    while k < values.len()
        invariant
            k <= values@.len(),
            views(quoted@) == string_views(values@).subrange(0, k as int).map_values(
                |v: Seq<char>| quoted_value(v),
            ),
        decreases values@.len() - k,
    {
        let mut q: Vec<char> = Vec::new();
        push_str(&mut q, "    \"");
        push_str(&mut q, values[k].as_str());
        push_str(&mut q, "\"");
        assert(q@ =~= quoted_value(values@[k as int]@));
        let ghost before = quoted@;
        quoted.push(q);
        assert(views(quoted@) =~= views(before).push(quoted_value(values@[k as int]@)));
        assert(views(quoted@) =~= string_views(values@).subrange(0, k + 1).map_values(
            |v: Seq<char>| quoted_value(v),
        ));
        k = k + 1;
    }
    assert(string_views(values@).subrange(0, values@.len() as int) =~= string_views(values@));
    let sep = chars_of(",\n");
    let list = join_with(&quoted, &sep);
    let mut out: Vec<char> = Vec::new();
    push_str(&mut out, "tag \"");
    push_all(&mut out, path);
    push_str(&mut out, "\"");
    let tt = chars_of(tag_type);
    if !(is_word(&tt, "function") || is_word(&tt, "functions")) {
        push_str(&mut out, " of \"");
        push_str(&mut out, tag_type);
        push_str(&mut out, "\"");
    }
    if replace {
        push_str(&mut out, " replace");
    }
    push_str(&mut out, " [\n");
    push_all(&mut out, &list);
    push_str(&mut out, "\n]\n");
    assert(out@ =~= tag_declaration(path@, tag_type@, replace, string_views(values@)));
    out
}

/// The text of the file that holds a tag declaration.
pub fn tag_file(version: &str, source: &str, namespace: &str, declaration: &Vec<char>) -> (r: Vec<
    char,
>)
    ensures
        r@ == tag_file_text(version@, source@, namespace@, declaration@),
{
    let mut out = header(version, source);
    push_str(&mut out, "namespace \"");
    push_str(&mut out, namespace);
    push_str(&mut out, "\";\n\n");
    push_all(&mut out, declaration);
    assert(out@ =~= tag_file_text(version@, source@, namespace@, declaration@));
    out
}

} // verus!
