//! Markdown renderer for chat display.
//!
//! `parse_markdown` turns raw markdown — possibly malformed or cut off
//! mid-stream — into an ordered sequence of blocks: styled text spans in
//! Pango-style markup, and raw code blocks tagged with their fence language.
//! `markdown_to_pango` renders the same content as a single styled string.
//! Both are total: any input, including an unterminated fence or style
//! marker, yields a well-formed result, so they can be re-run on the growing
//! accumulator after every streamed chunk.
//!
//! All user text is escaped before it is placed next to markup: the proof
//! functions at the end show that in everything rendered as markup, `<` and
//! `>` occur only as the borders of the fixed style tags, and `&` only as the
//! start of one of the fixed escape entities.
use vstd::prelude::*;

use crate::text::{
    chars_have_prefix, chars_to_string, push_chars, push_str_chars, str_to_chars, trim_chars,
    trim_spec,
};

verus! {

/// One rendered block: a markup-escaped styled span, or a raw code block
/// with its fence language.
pub enum MarkdownBlock {
    Text(String),
    Code(String, String),
}

/// The mathematical value of a `MarkdownBlock`.
pub enum BlockV {
    Text(Seq<char>),
    Code(Seq<char>, Seq<char>),
}

impl View for MarkdownBlock {
    type V = BlockV;

    open spec fn view(&self) -> BlockV {
        match self {
            MarkdownBlock::Text(s) => BlockV::Text(s@),
            MarkdownBlock::Code(lang, code) => BlockV::Code(lang@, code@),
        }
    }
}

/// The values of a block list.
pub open spec fn blocks_view(v: Seq<MarkdownBlock>) -> Seq<BlockV> {
    v.map_values(|b: MarkdownBlock| b@)
}

// The fixed style tags the renderer may emit.
pub open spec fn t_b_open() -> Seq<char> {
    "<b>"@
}

pub open spec fn t_b_close() -> Seq<char> {
    "</b>"@
}

pub open spec fn t_i_open() -> Seq<char> {
    "<i>"@
}

pub open spec fn t_i_close() -> Seq<char> {
    "</i>"@
}

pub open spec fn t_s_open() -> Seq<char> {
    "<s>"@
}

pub open spec fn t_s_close() -> Seq<char> {
    "</s>"@
}

pub open spec fn t_u_open() -> Seq<char> {
    "<u>"@
}

pub open spec fn t_u_close() -> Seq<char> {
    "</u>"@
}

pub open spec fn t_tt_open() -> Seq<char> {
    "<tt>"@
}

pub open spec fn t_tt_close() -> Seq<char> {
    "</tt>"@
}

pub open spec fn t_bq_open() -> Seq<char> {
    "<blockquote>"@
}

pub open spec fn t_bq_close() -> Seq<char> {
    "</blockquote>"@
}

pub open spec fn t_h1_open() -> Seq<char> {
    "<span font_size=\"xx-large\" weight=\"bold\">"@
}

pub open spec fn t_h2_open() -> Seq<char> {
    "<span font_size=\"x-large\" weight=\"bold\">"@
}

pub open spec fn t_h3_open() -> Seq<char> {
    "<span font_size=\"large\" weight=\"bold\">"@
}

pub open spec fn t_span_close() -> Seq<char> {
    "</span>"@
}

// The fixed escape entities.
pub open spec fn e_amp() -> Seq<char> {
    "&amp;"@
}

pub open spec fn e_lt() -> Seq<char> {
    "&lt;"@
}

pub open spec fn e_gt() -> Seq<char> {
    "&gt;"@
}

pub open spec fn e_quot() -> Seq<char> {
    "&quot;"@
}

pub open spec fn e_apos() -> Seq<char> {
    "&#39;"@
}

/// The tags that may appear in rendered markup.
pub open spec fn allowed_tag(g: Seq<char>) -> bool {
    ||| g == t_b_open()
    ||| g == t_b_close()
    ||| g == t_i_open()
    ||| g == t_i_close()
    ||| g == t_s_open()
    ||| g == t_s_close()
    ||| g == t_u_open()
    ||| g == t_u_close()
    ||| g == t_tt_open()
    ||| g == t_tt_close()
    ||| g == t_bq_open()
    ||| g == t_bq_close()
    ||| g == t_h1_open()
    ||| g == t_h2_open()
    ||| g == t_h3_open()
    ||| g == t_span_close()
}

/// The entities that escaped text may contain.
pub open spec fn allowed_entity(e: Seq<char>) -> bool {
    ||| e == e_amp()
    ||| e == e_lt()
    ||| e == e_gt()
    ||| e == e_quot()
    ||| e == e_apos()
}

/// `g` occurs in `t` starting at position `i`.
pub open spec fn occurs_at(t: Seq<char>, i: int, g: Seq<char>) -> bool {
    0 <= i && i + g.len() <= t.len() && t.subrange(i, i + g.len()) == g
}

/// Position `i` of `t` holds no stray markup character: a `<` begins one of
/// the fixed tags, a `>` ends one, and a `&` begins one of the fixed escape
/// entities.
pub open spec fn safe_at(t: Seq<char>, i: int) -> bool {
    &&& (t[i] == '<' ==> exists|g: Seq<char>| allowed_tag(g) && #[trigger] occurs_at(t, i, g))
    &&& (t[i] == '>' ==> exists|g: Seq<char>|
        allowed_tag(g) && #[trigger] occurs_at(t, i + 1 - g.len(), g))
    &&& (t[i] == '&' ==> exists|e: Seq<char>| allowed_entity(e) && #[trigger] occurs_at(t, i, e))
}

/// Rendered markup is safe: `<`, `>` and `&` occur only inside the fixed
/// tags and entities.
pub open spec fn safe_markup(t: Seq<char>) -> bool {
    forall|i: int| 0 <= i < t.len() ==> #[trigger] safe_at(t, i)
}

/// Safety is preserved by concatenation.
pub proof fn lemma_safe_concat(a: Seq<char>, b: Seq<char>)
    requires
        safe_markup(a),
        safe_markup(b),
    ensures
        safe_markup(a + b),
{
    let t = a + b;
    assert forall|i: int| 0 <= i < t.len() implies #[trigger] safe_at(t, i) by {
        if i < a.len() {
            assert(safe_at(a, i));
            assert(t[i] == a[i]);
            if t[i] == '<' {
                let g = choose|g: Seq<char>| allowed_tag(g) && #[trigger] occurs_at(a, i, g);
                assert(t.subrange(i, i + g.len()) =~= a.subrange(i, i + g.len()));
                assert(occurs_at(t, i, g));
            }
            if t[i] == '>' {
                let g = choose|g: Seq<char>|
                    allowed_tag(g) && #[trigger] occurs_at(a, i + 1 - g.len(), g);
                let j = i + 1 - g.len();
                assert(t.subrange(j, j + g.len()) =~= a.subrange(j, j + g.len()));
                assert(occurs_at(t, j, g));
            }
            if t[i] == '&' {
                let e = choose|e: Seq<char>| allowed_entity(e) && #[trigger] occurs_at(a, i, e);
                assert(t.subrange(i, i + e.len()) =~= a.subrange(i, i + e.len()));
                assert(occurs_at(t, i, e));
            }
        } else {
            let k = i - a.len();
            assert(safe_at(b, k));
            assert(t[i] == b[k]);
            if t[i] == '<' {
                let g = choose|g: Seq<char>| allowed_tag(g) && #[trigger] occurs_at(b, k, g);
                assert(t.subrange(i, i + g.len()) =~= b.subrange(k, k + g.len()));
                assert(occurs_at(t, i, g));
            }
            if t[i] == '>' {
                let g = choose|g: Seq<char>|
                    allowed_tag(g) && #[trigger] occurs_at(b, k + 1 - g.len(), g);
                let j = k + 1 - g.len();
                assert(t.subrange(a.len() + j, a.len() + j + g.len()) =~= b.subrange(
                    j,
                    j + g.len(),
                ));
                assert(occurs_at(t, i + 1 - g.len(), g));
            }
            if t[i] == '&' {
                let e = choose|e: Seq<char>| allowed_entity(e) && #[trigger] occurs_at(b, k, e);
                assert(t.subrange(i, i + e.len()) =~= b.subrange(k, k + e.len()));
                assert(occurs_at(t, i, e));
            }
        }
    }
}

/// A sequence without `<`, `>` or `&` is safe.
pub proof fn lemma_safe_plain(t: Seq<char>)
    requires
        forall|i: int| 0 <= i < t.len() ==> t[i] != '<' && t[i] != '>' && t[i] != '&',
    ensures
        safe_markup(t),
{
}

/// A tag whose single `<` stands first and whose single `>` stands last is
/// safe on its own.
proof fn lemma_safe_of_tag_shape(g: Seq<char>)
    requires
        allowed_tag(g),
        g.len() >= 2,
        g[0] == '<',
        g[g.len() - 1] == '>',
        forall|j: int| 0 < j < g.len() - 1 ==> g[j] != '<' && g[j] != '>' && g[j] != '&',
    ensures
        safe_markup(g),
{
    assert forall|i: int| 0 <= i < g.len() implies #[trigger] safe_at(g, i) by {
        assert(g.subrange(0, g.len() as int) =~= g);
        if g[i] == '<' {
            assert(i == 0);
            assert(occurs_at(g, 0, g));
        }
        if g[i] == '>' {
            assert(i == g.len() - 1);
            assert(occurs_at(g, i + 1 - g.len(), g));
        }
    }
}

/// Every fixed tag is safe markup.
pub proof fn lemma_tags_safe()
    ensures
        safe_markup(t_b_open()),
        safe_markup(t_b_close()),
        safe_markup(t_i_open()),
        safe_markup(t_i_close()),
        safe_markup(t_s_open()),
        safe_markup(t_s_close()),
        safe_markup(t_u_open()),
        safe_markup(t_u_close()),
        safe_markup(t_tt_open()),
        safe_markup(t_tt_close()),
        safe_markup(t_bq_open()),
        safe_markup(t_bq_close()),
        safe_markup(t_h1_open()),
        safe_markup(t_h2_open()),
        safe_markup(t_h3_open()),
        safe_markup(t_span_close()),
{
    reveal_strlit("<b>");
    reveal_strlit("</b>");
    reveal_strlit("<i>");
    reveal_strlit("</i>");
    reveal_strlit("<s>");
    reveal_strlit("</s>");
    reveal_strlit("<u>");
    reveal_strlit("</u>");
    reveal_strlit("<tt>");
    reveal_strlit("</tt>");
    reveal_strlit("<blockquote>");
    reveal_strlit("</blockquote>");
    reveal_strlit("<span font_size=\"xx-large\" weight=\"bold\">");
    reveal_strlit("<span font_size=\"x-large\" weight=\"bold\">");
    reveal_strlit("<span font_size=\"large\" weight=\"bold\">");
    reveal_strlit("</span>");
    lemma_safe_of_tag_shape(t_b_open());
    lemma_safe_of_tag_shape(t_b_close());
    lemma_safe_of_tag_shape(t_i_open());
    lemma_safe_of_tag_shape(t_i_close());
    lemma_safe_of_tag_shape(t_s_open());
    lemma_safe_of_tag_shape(t_s_close());
    lemma_safe_of_tag_shape(t_u_open());
    lemma_safe_of_tag_shape(t_u_close());
    lemma_safe_of_tag_shape(t_tt_open());
    lemma_safe_of_tag_shape(t_tt_close());
    lemma_safe_of_tag_shape(t_bq_open());
    lemma_safe_of_tag_shape(t_bq_close());
    lemma_safe_of_tag_shape(t_h1_open());
    lemma_safe_of_tag_shape(t_h2_open());
    lemma_safe_of_tag_shape(t_h3_open());
    lemma_safe_of_tag_shape(t_span_close());
}

/// Every fixed entity is safe markup.
pub proof fn lemma_entities_safe()
    ensures
        safe_markup(e_amp()),
        safe_markup(e_lt()),
        safe_markup(e_gt()),
        safe_markup(e_quot()),
        safe_markup(e_apos()),
{
    reveal_strlit("&amp;");
    reveal_strlit("&lt;");
    reveal_strlit("&gt;");
    reveal_strlit("&quot;");
    reveal_strlit("&#39;");
    assert forall|i: int| 0 <= i < e_amp().len() implies #[trigger] safe_at(e_amp(), i) by {
        assert(e_amp().subrange(0, e_amp().len() as int) =~= e_amp());
        assert(e_amp()[i] != '<' && e_amp()[i] != '>');
        if e_amp()[i] == '&' {
            assert(i == 0);
            assert(occurs_at(e_amp(), 0, e_amp()));
        }
    }
    assert forall|i: int| 0 <= i < e_lt().len() implies #[trigger] safe_at(e_lt(), i) by {
        assert(e_lt().subrange(0, e_lt().len() as int) =~= e_lt());
        assert(e_lt()[i] != '<' && e_lt()[i] != '>');
        if e_lt()[i] == '&' {
            assert(i == 0);
            assert(occurs_at(e_lt(), 0, e_lt()));
        }
    }
    assert forall|i: int| 0 <= i < e_gt().len() implies #[trigger] safe_at(e_gt(), i) by {
        assert(e_gt().subrange(0, e_gt().len() as int) =~= e_gt());
        assert(e_gt()[i] != '<' && e_gt()[i] != '>');
        if e_gt()[i] == '&' {
            assert(i == 0);
            assert(occurs_at(e_gt(), 0, e_gt()));
        }
    }
    assert forall|i: int| 0 <= i < e_quot().len() implies #[trigger] safe_at(e_quot(), i) by {
        assert(e_quot().subrange(0, e_quot().len() as int) =~= e_quot());
        assert(e_quot()[i] != '<' && e_quot()[i] != '>');
        if e_quot()[i] == '&' {
            assert(i == 0);
            assert(occurs_at(e_quot(), 0, e_quot()));
        }
    }
    assert forall|i: int| 0 <= i < e_apos().len() implies #[trigger] safe_at(e_apos(), i) by {
        assert(e_apos().subrange(0, e_apos().len() as int) =~= e_apos());
        assert(e_apos()[i] != '<' && e_apos()[i] != '>');
        if e_apos()[i] == '&' {
            assert(i == 0);
            assert(occurs_at(e_apos(), 0, e_apos()));
        }
    }
}

/// How one character of user text appears in escaped markup.
pub open spec fn escape_char(c: char) -> Seq<char> {
    if c == '&' {
        e_amp()
    } else if c == '<' {
        e_lt()
    } else if c == '>' {
        e_gt()
    } else if c == '"' {
        e_quot()
    } else if c == '\'' {
        e_apos()
    } else {
        seq![c]
    }
}

/// User text with every markup character replaced by its entity.
pub open spec fn escape_seq(s: Seq<char>) -> Seq<char>
    decreases s.len(),
{
    if s.len() == 0 {
        Seq::empty()
    } else {
        escape_seq(s.drop_last()) + escape_char(s.last())
    }
}

/// One escaped character is safe markup.
pub proof fn lemma_escape_char_safe(c: char)
    ensures
        safe_markup(escape_char(c)),
{
    lemma_entities_safe();
    if c != '&' && c != '<' && c != '>' && c != '"' && c != '\'' {
        lemma_safe_plain(seq![c]);
    }
}

/// Escaped user text is safe markup, whatever the text.
pub proof fn lemma_escape_safe(s: Seq<char>)
    ensures
        safe_markup(escape_seq(s)),
    decreases s.len(),
{
    if s.len() == 0 {
    } else {
        lemma_escape_safe(s.drop_last());
        lemma_escape_char_safe(s.last());
        lemma_safe_concat(escape_seq(s.drop_last()), escape_char(s.last()));
    }
}

/// Appends the escaped form of one character.
pub fn push_escaped(out: &mut Vec<char>, c: char)
    ensures
        final(out)@ == old(out)@ + escape_char(c),
{
    if c == '&' {
        push_str_chars(out, "&amp;");
    } else if c == '<' {
        push_str_chars(out, "&lt;");
    } else if c == '>' {
        push_str_chars(out, "&gt;");
    } else if c == '"' {
        push_str_chars(out, "&quot;");
    } else if c == '\'' {
        push_str_chars(out, "&#39;");
    } else {
        out.push(c);
        proof {
            assert(old(out)@ + seq![c] =~= old(out)@.push(c));
        }
    }
}

/// The inline styles that are open at a point of a line.
pub ghost struct InlSt {
    pub bold: bool,
    pub ital: bool,
    pub strike: bool,
    pub under: bool,
    pub tt: bool,
    pub in_url: bool,
}

pub open spec fn inl_init() -> InlSt {
    InlSt { bold: false, ital: false, strike: false, under: false, tt: false, in_url: false }
}

/// The closing tags owed for the styles still open at end of line, so that
/// an unterminated style marker still yields well-formed markup.
pub open spec fn closers(st: InlSt) -> Seq<char> {
    (if st.tt {
        t_tt_close()
    } else {
        Seq::empty()
    }) + (if st.under {
        t_u_close()
    } else {
        Seq::empty()
    }) + (if st.strike {
        t_s_close()
    } else {
        Seq::empty()
    }) + (if st.ital {
        t_i_close()
    } else {
        Seq::empty()
    }) + (if st.bold {
        t_b_close()
    } else {
        Seq::empty()
    })
}

/// The inline rendering of `line` from position `i` on, in style state `st`:
/// `**`, `*` and `~~` toggle bold, italic and strikethrough; a backtick
/// opens or closes an inline code span whose content is escaped verbatim;
/// `[text](url)` underlines the link text and drops the target; every other
/// character is escaped. Styles still open at the end of the line are
/// closed.
pub open spec fn inline_from(line: Seq<char>, i: int, st: InlSt) -> Seq<char>
    recommends
        0 <= i <= line.len(),
    decreases line.len() - i,
    when 0 <= i
{
    if i >= line.len() {
        closers(st)
    } else if st.in_url {
        if line[i] == ')' {
            inline_from(line, i + 1, InlSt { in_url: false, ..st })
        } else {
            inline_from(line, i + 1, st)
        }
    } else if st.tt {
        if line[i] == '`' {
            t_tt_close() + inline_from(line, i + 1, InlSt { tt: false, ..st })
        } else {
            escape_char(line[i]) + inline_from(line, i + 1, st)
        }
    } else if line[i] == '*' && i + 1 < line.len() && line[i + 1] == '*' {
        (if st.bold {
            t_b_close()
        } else {
            t_b_open()
        }) + inline_from(line, i + 2, InlSt { bold: !st.bold, ..st })
    } else if line[i] == '~' && i + 1 < line.len() && line[i + 1] == '~' {
        (if st.strike {
            t_s_close()
        } else {
            t_s_open()
        }) + inline_from(line, i + 2, InlSt { strike: !st.strike, ..st })
    } else if line[i] == '*' {
        (if st.ital {
            t_i_close()
        } else {
            t_i_open()
        }) + inline_from(line, i + 1, InlSt { ital: !st.ital, ..st })
    } else if line[i] == '`' {
        t_tt_open() + inline_from(line, i + 1, InlSt { tt: true, ..st })
    } else if line[i] == '[' && !st.under {
        t_u_open() + inline_from(line, i + 1, InlSt { under: true, ..st })
    } else if line[i] == ']' && st.under {
        if i + 1 < line.len() && line[i + 1] == '(' {
            t_u_close() + inline_from(line, i + 2, InlSt { under: false, in_url: true, ..st })
        } else {
            t_u_close() + inline_from(line, i + 1, InlSt { under: false, ..st })
        }
    } else {
        escape_char(line[i]) + inline_from(line, i + 1, st)
    }
}

/// The inline rendering of a whole line.
pub open spec fn inline_of(line: Seq<char>) -> Seq<char> {
    inline_from(line, 0, inl_init())
}

/// The closing tags are safe markup.
pub proof fn lemma_closers_safe(st: InlSt)
    ensures
        safe_markup(closers(st)),
{
    lemma_tags_safe();
    lemma_safe_concat(
        if st.tt {
            t_tt_close()
        } else {
            Seq::empty()
        },
        if st.under {
            t_u_close()
        } else {
            Seq::empty()
        },
    );
    lemma_safe_concat(
        (if st.tt {
            t_tt_close()
        } else {
            Seq::empty()
        }) + (if st.under {
            t_u_close()
        } else {
            Seq::empty()
        }),
        if st.strike {
            t_s_close()
        } else {
            Seq::empty()
        },
    );
    lemma_safe_concat(
        (if st.tt {
            t_tt_close()
        } else {
            Seq::empty()
        }) + (if st.under {
            t_u_close()
        } else {
            Seq::empty()
        }) + (if st.strike {
            t_s_close()
        } else {
            Seq::empty()
        }),
        if st.ital {
            t_i_close()
        } else {
            Seq::empty()
        },
    );
    lemma_safe_concat(
        (if st.tt {
            t_tt_close()
        } else {
            Seq::empty()
        }) + (if st.under {
            t_u_close()
        } else {
            Seq::empty()
        }) + (if st.strike {
            t_s_close()
        } else {
            Seq::empty()
        }) + (if st.ital {
            t_i_close()
        } else {
            Seq::empty()
        }),
        if st.bold {
            t_b_close()
        } else {
            Seq::empty()
        },
    );
}

/// Inline rendering yields safe markup from any position and state.
pub proof fn lemma_inline_safe(line: Seq<char>, i: int, st: InlSt)
    requires
        0 <= i,
    ensures
        safe_markup(inline_from(line, i, st)),
    decreases line.len() - i,
{
    lemma_tags_safe();
    if i >= line.len() {
        lemma_closers_safe(st);
    } else if st.in_url {
        if line[i] == ')' {
            lemma_inline_safe(line, i + 1, InlSt { in_url: false, ..st });
        } else {
            lemma_inline_safe(line, i + 1, st);
        }
    } else if st.tt {
        if line[i] == '`' {
            lemma_inline_safe(line, i + 1, InlSt { tt: false, ..st });
            lemma_safe_concat(t_tt_close(), inline_from(line, i + 1, InlSt { tt: false, ..st }));
        } else {
            lemma_inline_safe(line, i + 1, st);
            lemma_escape_char_safe(line[i]);
            lemma_safe_concat(escape_char(line[i]), inline_from(line, i + 1, st));
        }
    } else if line[i] == '*' && i + 1 < line.len() && line[i + 1] == '*' {
        let st2 = InlSt { bold: !st.bold, ..st };
        lemma_inline_safe(line, i + 2, st2);
        lemma_safe_concat(
            if st.bold {
                t_b_close()
            } else {
                t_b_open()
            },
            inline_from(line, i + 2, st2),
        );
    } else if line[i] == '~' && i + 1 < line.len() && line[i + 1] == '~' {
        let st2 = InlSt { strike: !st.strike, ..st };
        lemma_inline_safe(line, i + 2, st2);
        lemma_safe_concat(
            if st.strike {
                t_s_close()
            } else {
                t_s_open()
            },
            inline_from(line, i + 2, st2),
        );
    } else if line[i] == '*' {
        let st2 = InlSt { ital: !st.ital, ..st };
        lemma_inline_safe(line, i + 1, st2);
        lemma_safe_concat(
            if st.ital {
                t_i_close()
            } else {
                t_i_open()
            },
            inline_from(line, i + 1, st2),
        );
    } else if line[i] == '`' {
        let st2 = InlSt { tt: true, ..st };
        lemma_inline_safe(line, i + 1, st2);
        lemma_safe_concat(t_tt_open(), inline_from(line, i + 1, st2));
    } else if line[i] == '[' && !st.under {
        let st2 = InlSt { under: true, ..st };
        lemma_inline_safe(line, i + 1, st2);
        lemma_safe_concat(t_u_open(), inline_from(line, i + 1, st2));
    } else if line[i] == ']' && st.under {
        if i + 1 < line.len() && line[i + 1] == '(' {
            let st2 = InlSt { under: false, in_url: true, ..st };
            lemma_inline_safe(line, i + 2, st2);
            lemma_safe_concat(t_u_close(), inline_from(line, i + 2, st2));
        } else {
            let st2 = InlSt { under: false, ..st };
            lemma_inline_safe(line, i + 1, st2);
            lemma_safe_concat(t_u_close(), inline_from(line, i + 1, st2));
        }
    } else {
        lemma_inline_safe(line, i + 1, st);
        lemma_escape_char_safe(line[i]);
        lemma_safe_concat(escape_char(line[i]), inline_from(line, i + 1, st));
    }
}

/// A piece emitted by one scanner step stays in place when the output grows
/// around it.
proof fn lemma_step_concat(done: Seq<char>, piece: Seq<char>, rest: Seq<char>)
    ensures
        done + (piece + rest) == (done + piece) + rest,
{
    assert(done + (piece + rest) =~= (done + piece) + rest);
}

/// Renders the inline styles of one line.
pub fn render_inline(line: &Vec<char>) -> (r: Vec<char>)
    ensures
        r@ == inline_of(line@),
{
    let n = line.len();
    let mut out: Vec<char> = Vec::new();
    let mut bold = false;
    let mut ital = false;
    let mut strike = false;
    let mut under = false;
    let mut tt = false;
    let mut in_url = false;
    let mut i: usize = 0;
    while i < n
        invariant
            0 <= i <= n,
            n == line@.len(),
            inline_of(line@) == out@ + inline_from(
                line@,
                i as int,
                InlSt { bold, ital, strike, under, tt, in_url },
            ),
        decreases n - i,
    {
        let ghost st = InlSt { bold, ital, strike, under, tt, in_url };
        let ghost prev = out@;
        let c = line[i];
        if in_url {
            if c == ')' {
                in_url = false;
            }
            i = i + 1;
        } else if tt {
            if c == '`' {
                push_str_chars(&mut out, "</tt>");
                tt = false;
                proof {
                    lemma_step_concat(
                        prev,
                        t_tt_close(),
                        inline_from(line@, i + 1, InlSt { tt: false, ..st }),
                    );
                }
            } else {
                push_escaped(&mut out, c);
                proof {
                    lemma_step_concat(prev, escape_char(c), inline_from(line@, i + 1, st));
                }
            }
            i = i + 1;
        } else if c == '*' && i + 1 < n && line[i + 1] == '*' {
            if bold {
                push_str_chars(&mut out, "</b>");
            } else {
                push_str_chars(&mut out, "<b>");
            }
            proof {
                lemma_step_concat(
                    prev,
                    if st.bold {
                        t_b_close()
                    } else {
                        t_b_open()
                    },
                    inline_from(line@, i + 2, InlSt { bold: !st.bold, ..st }),
                );
            }
            bold = !bold;
            i = i + 2;
        } else if c == '~' && i + 1 < n && line[i + 1] == '~' {
            if strike {
                push_str_chars(&mut out, "</s>");
            } else {
                push_str_chars(&mut out, "<s>");
            }
            proof {
                lemma_step_concat(
                    prev,
                    if st.strike {
                        t_s_close()
                    } else {
                        t_s_open()
                    },
                    inline_from(line@, i + 2, InlSt { strike: !st.strike, ..st }),
                );
            }
            strike = !strike;
            i = i + 2;
        } else if c == '*' {
            if ital {
                push_str_chars(&mut out, "</i>");
            } else {
                push_str_chars(&mut out, "<i>");
            }
            proof {
                lemma_step_concat(
                    prev,
                    if st.ital {
                        t_i_close()
                    } else {
                        t_i_open()
                    },
                    inline_from(line@, i + 1, InlSt { ital: !st.ital, ..st }),
                );
            }
            ital = !ital;
            i = i + 1;
        } else if c == '`' {
            push_str_chars(&mut out, "<tt>");
            proof {
                lemma_step_concat(
                    prev,
                    t_tt_open(),
                    inline_from(line@, i + 1, InlSt { tt: true, ..st }),
                );
            }
            tt = true;
            i = i + 1;
        } else if c == '[' && !under {
            push_str_chars(&mut out, "<u>");
            proof {
                lemma_step_concat(
                    prev,
                    t_u_open(),
                    inline_from(line@, i + 1, InlSt { under: true, ..st }),
                );
            }
            under = true;
            i = i + 1;
        } else if c == ']' && under {
            push_str_chars(&mut out, "</u>");
            under = false;
            if i + 1 < n && line[i + 1] == '(' {
                proof {
                    lemma_step_concat(
                        prev,
                        t_u_close(),
                        inline_from(line@, i + 2, InlSt { under: false, in_url: true, ..st }),
                    );
                }
                in_url = true;
                i = i + 2;
            } else {
                proof {
                    lemma_step_concat(
                        prev,
                        t_u_close(),
                        inline_from(line@, i + 1, InlSt { under: false, ..st }),
                    );
                }
                i = i + 1;
            }
        } else {
            push_escaped(&mut out, c);
            proof {
                lemma_step_concat(prev, escape_char(c), inline_from(line@, i + 1, st));
            }
            i = i + 1;
        }
    }
    if tt {
        push_str_chars(&mut out, "</tt>");
    }
    if under {
        push_str_chars(&mut out, "</u>");
    }
    if strike {
        push_str_chars(&mut out, "</s>");
    }
    if ital {
        push_str_chars(&mut out, "</i>");
    }
    if bold {
        push_str_chars(&mut out, "</b>");
    }
    proof {
        assert(out@ =~= inline_of(line@));
    }
    out
}

/// The input cut at every newline; one element more than there are newlines.
pub open spec fn split_lines(s: Seq<char>) -> Seq<Seq<char>>
    decreases s.len(),
{
    if s.len() == 0 {
        seq![Seq::<char>::empty()]
    } else {
        let prev = split_lines(s.drop_last());
        if s.last() == '\n' {
            prev.push(Seq::empty())
        } else {
            prev.update(prev.len() - 1, prev.last().push(s.last()))
        }
    }
}

pub proof fn lemma_split_lines_nonempty(s: Seq<char>)
    ensures
        split_lines(s).len() >= 1,
    decreases s.len(),
{
    if s.len() > 0 {
        lemma_split_lines_nonempty(s.drop_last());
    }
}

/// The values of a list of lines.
pub open spec fn lines_view(v: Seq<Vec<char>>) -> Seq<Seq<char>> {
    v.map_values(|x: Vec<char>| x@)
}

/// Cuts the text at every newline.
pub fn split_into_lines(v: &Vec<char>) -> (r: Vec<Vec<char>>)
    ensures
        lines_view(r@) == split_lines(v@),
{
    let n = v.len();
    let mut done: Vec<Vec<char>> = Vec::new();
    let mut cur: Vec<char> = Vec::new();
    let mut i: usize = 0;
    while i < n
        invariant
            0 <= i <= n,
            n == v@.len(),
            lines_view(done@).push(cur@) == split_lines(v@.take(i as int)),
        decreases n - i,
    {
        let ghost prev = split_lines(v@.take(i as int));
        proof {
            assert(v@.take(i + 1 as int).drop_last() =~= v@.take(i as int));
            assert(v@.take(i + 1 as int).last() == v@[i as int]);
        }
        let c = v[i];
        if c == '\n' {
            done.push(cur);
            cur = Vec::new();
            proof {
                assert(lines_view(done@).push(cur@) =~= split_lines(v@.take(i + 1 as int)));
            }
        } else {
            cur.push(c);
            proof {
                assert(lines_view(done@).push(cur@) =~= prev.update(
                    prev.len() - 1,
                    prev.last().push(v@[i as int]),
                ));
            }
        }
        i = i + 1;
    }
    done.push(cur);
    proof {
        assert(v@.take(n as int) =~= v@);
        assert(lines_view(done@) =~= split_lines(v@));
    }
    done
}

/// Whether the line opens or closes a fenced code region.
pub open spec fn is_fence(line: Seq<char>) -> bool {
    crate::text::has_prefix(line, "```"@)
}

/// The language tag of an opening fence: what follows the backticks, trimmed.
pub open spec fn fence_lang(line: Seq<char>) -> Seq<char> {
    trim_spec(line.skip(3))
}

/// How many `#` characters the line starts with.
pub open spec fn hash_prefix_len(line: Seq<char>) -> int
    decreases line.len(),
{
    if line.len() > 0 && line[0] == '#' {
        1 + hash_prefix_len(line.drop_first())
    } else {
        0
    }
}

pub proof fn lemma_hash_prefix_len(line: Seq<char>, k: int)
    requires
        0 <= k <= line.len(),
        forall|j: int| 0 <= j < k ==> line[j] == '#',
        k == line.len() || line[k] != '#',
    ensures
        hash_prefix_len(line) == k,
    decreases k,
{
    if k == 0 {
    } else {
        lemma_hash_prefix_len(line.drop_first(), k - 1);
    }
}

/// A heading line: one to six `#` characters, then a space.
pub open spec fn is_heading(line: Seq<char>) -> bool {
    let k = hash_prefix_len(line);
    1 <= k <= 6 && k < line.len() && line[k] == ' '
}

/// The opening span tag for a heading of the given depth.
pub open spec fn heading_open(k: int) -> Seq<char> {
    if k == 1 {
        t_h1_open()
    } else if k == 2 {
        t_h2_open()
    } else {
        t_h3_open()
    }
}

/// A horizontal rule: three or more dashes and nothing else.
pub open spec fn is_rule_line(line: Seq<char>) -> bool {
    let t = trim_spec(line);
    t.len() >= 3 && (forall|j: int| 0 <= j < t.len() ==> t[j] == '-')
}

/// The fixed decorative separator a rule renders to.
pub open spec fn rule_text() -> Seq<char> {
    Seq::new(19, |i: int| '─')
}

/// A block quote line.
pub open spec fn is_quote(line: Seq<char>) -> bool {
    line.len() > 0 && line[0] == '>'
}

/// The quoted text: the marker and one following space are dropped.
pub open spec fn quote_content(line: Seq<char>) -> Seq<char> {
    if line.len() >= 2 && line[1] == ' ' {
        line.skip(2)
    } else {
        line.skip(1)
    }
}

/// A list item line.
pub open spec fn is_item(line: Seq<char>) -> bool {
    crate::text::has_prefix(line, "- "@) || crate::text::has_prefix(line, "* "@)
}

/// The bullet that replaces a list marker.
pub open spec fn bullet() -> Seq<char> {
    seq![' ', ' ', '•', ' ']
}

/// The markup for one line outside a code region: a rule becomes the fixed
/// separator; a heading, quote or list line wraps its inline-rendered content
/// in the matching tags; any other line is inline-rendered whole.
pub open spec fn rendered_line(line: Seq<char>) -> Seq<char> {
    if is_rule_line(line) {
        rule_text()
    } else if is_heading(line) {
        let k = hash_prefix_len(line);
        heading_open(k) + inline_of(line.skip(k + 1)) + t_span_close()
    } else if is_quote(line) {
        t_bq_open() + inline_of(quote_content(line)) + t_bq_close()
    } else if is_item(line) {
        bullet() + inline_of(line.skip(2))
    } else {
        inline_of(line)
    }
}

/// `b`, appended to `a` on a fresh line.
pub open spec fn join_nl(a: Seq<char>, b: Seq<char>) -> Seq<char> {
    if a.len() == 0 {
        b
    } else {
        a + seq!['\n'] + b
    }
}

/// Decides `is_rule_line`.
fn is_rule(line: &Vec<char>) -> (r: bool)
    ensures
        r == is_rule_line(line@),
{
    let t = trim_chars(line);
    if t.len() < 3 {
        return false;
    }
    let mut j: usize = 0;
    while j < t.len()
        invariant
            0 <= j <= t@.len(),
            t@ == trim_spec(line@),
            forall|i: int| 0 <= i < j ==> t@[i] == '-',
        decreases t@.len() - j,
    {
        if t[j] != '-' {
            return false;
        }
        j = j + 1;
    }
    true
}

/// Counts the leading `#` characters.
fn hash_count(line: &Vec<char>) -> (r: usize)
    ensures
        r == hash_prefix_len(line@),
{
    let mut k: usize = 0;
    while k < line.len() && line[k] == '#'
        invariant
            0 <= k <= line@.len(),
            forall|j: int| 0 <= j < k ==> line@[j] == '#',
        decreases line@.len() - k,
    {
        k = k + 1;
    }
    proof {
        lemma_hash_prefix_len(line@, k as int);
    }
    k
}

/// Emits the fixed separator line.
fn push_rule(out: &mut Vec<char>)
    ensures
        final(out)@ == old(out)@ + rule_text(),
{
    let mut i: usize = 0;
    while i < 19
        invariant
            0 <= i <= 19,
            out@ == old(out)@ + rule_text().take(i as int),
        decreases 19 - i,
    {
        out.push('─');
        proof {
            assert(old(out)@ + rule_text().take(i + 1 as int) =~= (old(out)@ + rule_text().take(
                i as int,
            )).push('─'));
        }
        i = i + 1;
    }
    proof {
        assert(old(out)@ + rule_text().take(19) =~= old(out)@ + rule_text());
    }
}

/// Renders one line that stands outside a code region.
fn render_line(line: &Vec<char>) -> (r: Vec<char>)
    ensures
        r@ == rendered_line(line@),
{
    let mut out: Vec<char> = Vec::new();
    if is_rule(line) {
        push_rule(&mut out);
        proof {
            assert(out@ =~= rendered_line(line@));
        }
        return out;
    }
    let k = hash_count(line);
    if 1 <= k && k <= 6 && k < line.len() && line[k] == ' ' {
        let content = crate::text::skip_from(line, k + 1);
        let inner = render_inline(&content);
        if k == 1 {
            push_str_chars(&mut out, "<span font_size=\"xx-large\" weight=\"bold\">");
        } else if k == 2 {
            push_str_chars(&mut out, "<span font_size=\"x-large\" weight=\"bold\">");
        } else {
            push_str_chars(&mut out, "<span font_size=\"large\" weight=\"bold\">");
        }
        push_chars(&mut out, &inner);
        push_str_chars(&mut out, "</span>");
        return out;
    }
    if line.len() > 0 && line[0] == '>' {
        let content = if line.len() >= 2 && line[1] == ' ' {
            crate::text::skip_from(line, 2)
        } else {
            crate::text::skip_from(line, 1)
        };
        let inner = render_inline(&content);
        push_str_chars(&mut out, "<blockquote>");
        push_chars(&mut out, &inner);
        push_str_chars(&mut out, "</blockquote>");
        return out;
    }
    if chars_have_prefix(line, "- ") || chars_have_prefix(line, "* ") {
        proof {
            reveal_strlit("- ");
            reveal_strlit("* ");
        }
        let content = crate::text::skip_from(line, 2);
        let inner = render_inline(&content);
        out.push(' ');
        out.push(' ');
        out.push('•');
        out.push(' ');
        push_chars(&mut out, &inner);
        proof {
            assert(out@ =~= bullet() + inline_of(line@.skip(2)));
        }
        return out;
    }
    render_inline(line)
}

/// The state of the block scanner between lines.
pub ghost struct ScanSt {
    pub in_code: bool,
    pub lang: Seq<char>,
    pub code: Seq<char>,
    pub text: Seq<char>,
    pub blocks: Seq<BlockV>,
}

pub open spec fn scan_init() -> ScanSt {
    ScanSt {
        in_code: false,
        lang: Seq::empty(),
        code: Seq::empty(),
        text: Seq::empty(),
        blocks: Seq::empty(),
    }
}

/// One line of the block scan: fences open and close code regions (closing
/// one emits a trimmed code block); lines inside a region accumulate as raw
/// code; any other line is rendered and joined to the pending text span.
pub open spec fn scan_step(st: ScanSt, line: Seq<char>) -> ScanSt {
    if st.in_code {
        if is_fence(line) {
            ScanSt {
                in_code: false,
                lang: Seq::empty(),
                code: Seq::empty(),
                text: st.text,
                blocks: st.blocks.push(BlockV::Code(st.lang, trim_spec(st.code))),
            }
        } else {
            ScanSt { code: join_nl(st.code, line), ..st }
        }
    } else {
        if is_fence(line) {
            ScanSt {
                in_code: true,
                lang: fence_lang(line),
                code: Seq::empty(),
                text: Seq::empty(),
                blocks: if st.text.len() > 0 {
                    st.blocks.push(BlockV::Text(st.text))
                } else {
                    st.blocks
                },
            }
        } else {
            ScanSt { text: join_nl(st.text, rendered_line(line)), ..st }
        }
    }
}

pub open spec fn scan_lines(st: ScanSt, lines: Seq<Seq<char>>) -> ScanSt
    decreases lines.len(),
{
    if lines.len() == 0 {
        st
    } else {
        scan_lines(scan_step(st, lines[0]), lines.drop_first())
    }
}

/// Flushes what the scan still holds: an unterminated code fence still
/// yields its code block, pending text still yields its span.
pub open spec fn scan_finish(st: ScanSt) -> Seq<BlockV> {
    let b1 = if st.in_code {
        st.blocks.push(BlockV::Code(st.lang, trim_spec(st.code)))
    } else {
        st.blocks
    };
    if st.text.len() > 0 {
        b1.push(BlockV::Text(st.text))
    } else {
        b1
    }
}

/// The block sequence any input renders to.
pub open spec fn render_blocks(s: Seq<char>) -> Seq<BlockV> {
    scan_finish(scan_lines(scan_init(), split_lines(s)))
}

/// Renders markdown into blocks: markup-escaped styled text spans and raw
/// code blocks. Total over arbitrary input, partial or malformed included,
/// so it can be re-run on the accumulator after every streamed chunk.
pub fn parse_markdown(markdown: &str) -> (r: Vec<MarkdownBlock>)
    ensures
        blocks_view(r@) == render_blocks(markdown@),
{
    let chars = str_to_chars(markdown);
    let lines = split_into_lines(&chars);
    let ghost all = lines_view(lines@);
    let mut in_code = false;
    let mut lang: Vec<char> = Vec::new();
    let mut code: Vec<char> = Vec::new();
    let mut text: Vec<char> = Vec::new();
    let mut blocks: Vec<MarkdownBlock> = Vec::new();
    let mut j: usize = 0;
    proof {
        assert(all.skip(0) =~= all);
        assert(blocks_view(blocks@) =~= Seq::<BlockV>::empty());
    }
    while j < lines.len()
        invariant
            0 <= j <= lines@.len(),
            all == lines_view(lines@),
            scan_lines(scan_init(), all) == scan_lines(
                ScanSt {
                    in_code,
                    lang: lang@,
                    code: code@,
                    text: text@,
                    blocks: blocks_view(blocks@),
                },
                all.skip(j as int),
            ),
        decreases lines@.len() - j,
    {
        let ghost st = ScanSt {
            in_code,
            lang: lang@,
            code: code@,
            text: text@,
            blocks: blocks_view(blocks@),
        };
        proof {
            assert(all.skip(j as int)[0] == all[j as int]);
            assert(all.skip(j as int).drop_first() =~= all.skip(j + 1 as int));
            assert(scan_lines(st, all.skip(j as int)) == scan_lines(
                scan_step(st, all[j as int]),
                all.skip(j + 1 as int),
            ));
        }
        let line = &lines[j];
        if in_code {
            if chars_have_prefix(line, "```") {
                let code_trimmed = trim_chars(&code);
                blocks.push(
                    MarkdownBlock::Code(chars_to_string(&lang), chars_to_string(&code_trimmed)),
                );
                lang = Vec::new();
                code = Vec::new();
                in_code = false;
                proof {
                    assert(blocks_view(blocks@) =~= st.blocks.push(
                        BlockV::Code(st.lang, trim_spec(st.code)),
                    ));
                }
            } else {
                if code.len() == 0 {
                    push_chars(&mut code, line);
                    proof {
                        assert(code@ =~= join_nl(st.code, line@));
                    }
                } else {
                    code.push('\n');
                    push_chars(&mut code, line);
                    proof {
                        assert(code@ =~= join_nl(st.code, line@));
                    }
                }
            }
        } else {
            if chars_have_prefix(line, "```") {
                if text.len() > 0 {
                    blocks.push(MarkdownBlock::Text(chars_to_string(&text)));
                    proof {
                        assert(blocks_view(blocks@) =~= st.blocks.push(BlockV::Text(st.text)));
                    }
                }
                proof {
                    reveal_strlit("```");
                }
                let rest = crate::text::skip_from(line, 3);
                lang = trim_chars(&rest);
                code = Vec::new();
                text = Vec::new();
                in_code = true;
            } else {
                let rline = render_line(line);
                if text.len() == 0 {
                    push_chars(&mut text, &rline);
                    proof {
                        assert(text@ =~= join_nl(st.text, rendered_line(line@)));
                    }
                } else {
                    text.push('\n');
                    push_chars(&mut text, &rline);
                    proof {
                        assert(text@ =~= join_nl(st.text, rendered_line(line@)));
                    }
                }
            }
        }
        j = j + 1;
    }
    proof {
        assert(all.skip(lines@.len() as int) =~= Seq::<Seq<char>>::empty());
    }
    if in_code {
        let code_trimmed = trim_chars(&code);
        blocks.push(MarkdownBlock::Code(chars_to_string(&lang), chars_to_string(&code_trimmed)));
        proof {
            assert(blocks_view(blocks@) =~= blocks_view(blocks@.drop_last()).push(
                blocks@.last()@,
            ));
        }
    }
    if text.len() > 0 {
        blocks.push(MarkdownBlock::Text(chars_to_string(&text)));
        proof {
            assert(blocks_view(blocks@) =~= blocks_view(blocks@.drop_last()).push(
                blocks@.last()@,
            ));
        }
    }
    blocks
}

/// The markup a closed (or cut-off) code region contributes to the single-
/// string rendering: escaped, in a monospace span.
pub open spec fn code_markup(code: Seq<char>) -> Seq<char> {
    seq!['\n'] + t_tt_open() + escape_seq(code) + t_tt_close() + seq!['\n']
}

/// The state of the single-string scan between lines.
pub ghost struct PangoSt {
    pub in_code: bool,
    pub code: Seq<char>,
    pub out: Seq<char>,
}

pub open spec fn pango_init() -> PangoSt {
    PangoSt { in_code: false, code: Seq::empty(), out: Seq::empty() }
}

/// One line of the single-string scan: as `scan_step`, except that a closed
/// code region is emitted inline as an escaped monospace span.
pub open spec fn pango_step(st: PangoSt, line: Seq<char>) -> PangoSt {
    if st.in_code {
        if is_fence(line) {
            PangoSt { in_code: false, code: Seq::empty(), out: st.out + code_markup(st.code) }
        } else {
            PangoSt { code: join_nl(st.code, line), ..st }
        }
    } else {
        if is_fence(line) {
            PangoSt { in_code: true, code: Seq::empty(), out: st.out }
        } else {
            PangoSt { out: join_nl(st.out, rendered_line(line)), ..st }
        }
    }
}

pub open spec fn pango_lines(st: PangoSt, lines: Seq<Seq<char>>) -> PangoSt
    decreases lines.len(),
{
    if lines.len() == 0 {
        st
    } else {
        pango_lines(pango_step(st, lines[0]), lines.drop_first())
    }
}

pub open spec fn pango_finish(st: PangoSt) -> Seq<char> {
    if st.in_code {
        st.out + code_markup(st.code)
    } else {
        st.out
    }
}

/// The single styled string any input renders to.
pub open spec fn render_pango(s: Seq<char>) -> Seq<char> {
    pango_finish(pango_lines(pango_init(), split_lines(s)))
}

/// Appends the escaped form of a whole text.
fn push_escape_all(out: &mut Vec<char>, v: &Vec<char>)
    ensures
        final(out)@ == old(out)@ + escape_seq(v@),
{
    let mut i: usize = 0;
    while i < v.len()
        invariant
            0 <= i <= v@.len(),
            out@ == old(out)@ + escape_seq(v@.take(i as int)),
        decreases v@.len() - i,
    {
        proof {
            assert(v@.take(i + 1 as int).drop_last() =~= v@.take(i as int));
            assert(v@.take(i + 1 as int).last() == v@[i as int]);
        }
        push_escaped(out, v[i]);
        i = i + 1;
    }
    proof {
        assert(v@.take(v@.len() as int) =~= v@);
    }
}

/// Appends the monospace markup of a code region.
fn push_code_markup(out: &mut Vec<char>, code: &Vec<char>)
    ensures
        final(out)@ == old(out)@ + code_markup(code@),
{
    out.push('\n');
    push_str_chars(out, "<tt>");
    push_escape_all(out, code);
    push_str_chars(out, "</tt>");
    out.push('\n');
    proof {
        assert(out@ =~= old(out)@ + code_markup(code@));
    }
}

/// Renders markdown as one styled string, with the same inline styling and
/// escaping as `parse_markdown`, code regions shown as escaped monospace
/// spans. Total over arbitrary input.
pub fn markdown_to_pango(markdown: &str) -> (r: String)
    ensures
        r@ == render_pango(markdown@),
{
    let chars = str_to_chars(markdown);
    let lines = split_into_lines(&chars);
    let ghost all = lines_view(lines@);
    let mut in_code = false;
    let mut code: Vec<char> = Vec::new();
    let mut out: Vec<char> = Vec::new();
    let mut j: usize = 0;
    proof {
        assert(all.skip(0) =~= all);
    }
    while j < lines.len()
        invariant
            0 <= j <= lines@.len(),
            all == lines_view(lines@),
            pango_lines(pango_init(), all) == pango_lines(
                PangoSt { in_code, code: code@, out: out@ },
                all.skip(j as int),
            ),
        decreases lines@.len() - j,
    {
        let ghost st = PangoSt { in_code, code: code@, out: out@ };
        proof {
            assert(all.skip(j as int)[0] == all[j as int]);
            assert(all.skip(j as int).drop_first() =~= all.skip(j + 1 as int));
            assert(pango_lines(st, all.skip(j as int)) == pango_lines(
                pango_step(st, all[j as int]),
                all.skip(j + 1 as int),
            ));
        }
        let line = &lines[j];
        if in_code {
            if chars_have_prefix(line, "```") {
                push_code_markup(&mut out, &code);
                code = Vec::new();
                in_code = false;
            } else {
                if code.len() == 0 {
                    push_chars(&mut code, line);
                    proof {
                        assert(code@ =~= join_nl(st.code, line@));
                    }
                } else {
                    code.push('\n');
                    push_chars(&mut code, line);
                    proof {
                        assert(code@ =~= join_nl(st.code, line@));
                    }
                }
            }
        } else {
            if chars_have_prefix(line, "```") {
                code = Vec::new();
                in_code = true;
            } else {
                let rline = render_line(line);
                if out.len() == 0 {
                    push_chars(&mut out, &rline);
                    proof {
                        assert(out@ =~= join_nl(st.out, rendered_line(line@)));
                    }
                } else {
                    out.push('\n');
                    push_chars(&mut out, &rline);
                    proof {
                        assert(out@ =~= join_nl(st.out, rendered_line(line@)));
                    }
                }
            }
        }
        j = j + 1;
    }
    proof {
        assert(all.skip(lines@.len() as int) =~= Seq::<Seq<char>>::empty());
    }
    if in_code {
        push_code_markup(&mut out, &code);
    }
    chars_to_string(&out)
}

/// Joining on a fresh line preserves safety.
pub proof fn lemma_join_nl_safe(a: Seq<char>, b: Seq<char>)
    requires
        safe_markup(a),
        safe_markup(b),
    ensures
        safe_markup(join_nl(a, b)),
{
    if a.len() != 0 {
        lemma_safe_plain(seq!['\n']);
        lemma_safe_concat(a, seq!['\n']);
        lemma_safe_concat(a + seq!['\n'], b);
    }
}

/// Whatever the line holds, its rendering is safe markup.
pub proof fn lemma_rendered_line_safe(line: Seq<char>)
    ensures
        safe_markup(rendered_line(line)),
{
    lemma_tags_safe();
    if is_rule_line(line) {
        lemma_safe_plain(rule_text());
    } else if is_heading(line) {
        let k = hash_prefix_len(line);
        lemma_inline_safe(line.skip(k + 1), 0, inl_init());
        lemma_safe_concat(heading_open(k), inline_of(line.skip(k + 1)));
        lemma_safe_concat(heading_open(k) + inline_of(line.skip(k + 1)), t_span_close());
    } else if is_quote(line) {
        lemma_inline_safe(quote_content(line), 0, inl_init());
        lemma_safe_concat(t_bq_open(), inline_of(quote_content(line)));
        lemma_safe_concat(t_bq_open() + inline_of(quote_content(line)), t_bq_close());
    } else if is_item(line) {
        lemma_inline_safe(line.skip(2), 0, inl_init());
        lemma_safe_plain(bullet());
        lemma_safe_concat(bullet(), inline_of(line.skip(2)));
    } else {
        lemma_inline_safe(line, 0, inl_init());
    }
}

/// The monospace markup of a code region is safe, whatever the code holds.
pub proof fn lemma_code_markup_safe(code: Seq<char>)
    ensures
        safe_markup(code_markup(code)),
{
    lemma_tags_safe();
    lemma_escape_safe(code);
    lemma_safe_plain(seq!['\n']);
    lemma_safe_concat(seq!['\n'], t_tt_open());
    lemma_safe_concat(seq!['\n'] + t_tt_open(), escape_seq(code));
    lemma_safe_concat(seq!['\n'] + t_tt_open() + escape_seq(code), t_tt_close());
    lemma_safe_concat(seq!['\n'] + t_tt_open() + escape_seq(code) + t_tt_close(), seq!['\n']);
}

/// A text block holds safe markup; a code block is raw by design and makes
/// no markup claim.
pub open spec fn block_is_safe(b: BlockV) -> bool {
    match b {
        BlockV::Text(t) => safe_markup(t),
        BlockV::Code(_, _) => true,
    }
}

pub open spec fn all_blocks_safe(bs: Seq<BlockV>) -> bool {
    forall|i: int| 0 <= i < bs.len() ==> #[trigger] block_is_safe(bs[i])
}

/// The scanner keeps its pending text and all emitted blocks safe.
pub open spec fn scan_st_safe(st: ScanSt) -> bool {
    all_blocks_safe(st.blocks) && safe_markup(st.text)
}

proof fn lemma_scan_step_safe(st: ScanSt, line: Seq<char>)
    requires
        scan_st_safe(st),
    ensures
        scan_st_safe(scan_step(st, line)),
{
    let st2 = scan_step(st, line);
    if st.in_code {
        if is_fence(line) {
            assert forall|i: int| 0 <= i < st2.blocks.len() implies #[trigger] block_is_safe(
                st2.blocks[i],
            ) by {
                if i < st.blocks.len() {
                    assert(block_is_safe(st.blocks[i]));
                }
            }
        }
    } else {
        if is_fence(line) {
            assert forall|i: int| 0 <= i < st2.blocks.len() implies #[trigger] block_is_safe(
                st2.blocks[i],
            ) by {
                if i < st.blocks.len() {
                    assert(block_is_safe(st.blocks[i]));
                }
            }
        } else {
            lemma_rendered_line_safe(line);
            lemma_join_nl_safe(st.text, rendered_line(line));
        }
    }
}

proof fn lemma_scan_lines_safe(st: ScanSt, lines: Seq<Seq<char>>)
    requires
        scan_st_safe(st),
    ensures
        scan_st_safe(scan_lines(st, lines)),
    decreases lines.len(),
{
    if lines.len() > 0 {
        lemma_scan_step_safe(st, lines[0]);
        lemma_scan_lines_safe(scan_step(st, lines[0]), lines.drop_first());
    }
}

/// Every text block `parse_markdown` can produce is safe markup: in it, `<`
/// and `>` occur only as the borders of the fixed style tags and `&` only as
/// the start of one of the fixed escape entities — whatever the input.
pub proof fn lemma_render_blocks_safe(s: Seq<char>)
    ensures
        all_blocks_safe(render_blocks(s)),
{
    lemma_scan_lines_safe(scan_init(), split_lines(s));
    let st = scan_lines(scan_init(), split_lines(s));
    let fin = scan_finish(st);
    assert forall|i: int| 0 <= i < fin.len() implies #[trigger] block_is_safe(fin[i]) by {
        if i < st.blocks.len() {
            assert(block_is_safe(st.blocks[i]));
        }
    }
}

proof fn lemma_pango_step_safe(st: PangoSt, line: Seq<char>)
    requires
        safe_markup(st.out),
    ensures
        safe_markup(pango_step(st, line).out),
{
    if st.in_code {
        if is_fence(line) {
            lemma_code_markup_safe(st.code);
            lemma_safe_concat(st.out, code_markup(st.code));
        }
    } else {
        if !is_fence(line) {
            lemma_rendered_line_safe(line);
            lemma_join_nl_safe(st.out, rendered_line(line));
        }
    }
}

proof fn lemma_pango_lines_safe(st: PangoSt, lines: Seq<Seq<char>>)
    requires
        safe_markup(st.out),
    ensures
        safe_markup(pango_lines(st, lines).out),
    decreases lines.len(),
{
    if lines.len() > 0 {
        lemma_pango_step_safe(st, lines[0]);
        lemma_pango_lines_safe(pango_step(st, lines[0]), lines.drop_first());
    }
}

/// Everything `markdown_to_pango` can produce is safe markup, whatever the
/// input: `<` and `>` occur only as the borders of the fixed style tags and
/// `&` only as the start of one of the fixed escape entities.
pub proof fn lemma_render_pango_safe(s: Seq<char>)
    ensures
        safe_markup(render_pango(s)),
{
    lemma_pango_lines_safe(pango_init(), split_lines(s));
    let st = pango_lines(pango_init(), split_lines(s));
    if st.in_code {
        lemma_code_markup_safe(st.code);
        lemma_safe_concat(st.out, code_markup(st.code));
    }
}

/// With no code region in play, the block scanner and the single-string
/// scanner accumulate the very same markup from the same lines.
proof fn lemma_scans_agree(lines: Seq<Seq<char>>, ss: ScanSt, ps: PangoSt)
    requires
        forall|i: int| 0 <= i < lines.len() ==> !is_fence(#[trigger] lines[i]),
        !ss.in_code,
        !ps.in_code,
        ss.text == ps.out,
        ss.blocks == Seq::<BlockV>::empty(),
    ensures
        !scan_lines(ss, lines).in_code,
        !pango_lines(ps, lines).in_code,
        scan_lines(ss, lines).blocks == Seq::<BlockV>::empty(),
        scan_lines(ss, lines).text == pango_lines(ps, lines).out,
    decreases lines.len(),
{
    if lines.len() > 0 {
        assert(!is_fence(lines[0]));
        lemma_scans_agree(lines.drop_first(), scan_step(ss, lines[0]), pango_step(ps, lines[0]));
    }
}

/// The two renderers never diverge: on input without a code fence,
/// `markdown_to_pango` and the text blocks of `parse_markdown` hold the very
/// same escaped markup — at most one text block, equal to the single string.
pub proof fn lemma_renderers_agree_without_fences(s: Seq<char>)
    requires
        forall|i: int|
            0 <= i < split_lines(s).len() ==> !is_fence(#[trigger] split_lines(s)[i]),
    ensures
        render_pango(s).len() == 0 ==> render_blocks(s) == Seq::<BlockV>::empty(),
        render_pango(s).len() > 0 ==> render_blocks(s) == seq![BlockV::Text(render_pango(s))],
{
    lemma_scans_agree(split_lines(s), scan_init(), pango_init());
    let st = scan_lines(scan_init(), split_lines(s));
    if render_pango(s).len() > 0 {
        assert(scan_finish(st) =~= seq![BlockV::Text(render_pango(s))]);
    }
}

} // verus!

