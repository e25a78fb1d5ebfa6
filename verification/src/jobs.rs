//! The background jobs launched after a completed exchange: the title job,
//! which asks the model for a short chat title and rewrites the new history
//! entry, and the memory job, which asks the model for an updated memory
//! blob. Both talk to the model through the caller; here stands the logic —
//! prompt composition, result cleaning, and the history rewrite.
use vstd::prelude::*;

use crate::state::{history_view, ChatHistory, ChatHistoryV, Message};
use crate::text::{
    chars_to_string, push_chars, push_str_chars, str_to_chars, trim_chars, trim_spec,
};

verus! {

broadcast use vstd::seq::Seq::lemma_push_map_commute;

/// The sequence with its leading double quotes removed.
pub open spec fn quotes_front(s: Seq<char>) -> Seq<char>
    decreases s.len(),
{
    if s.len() > 0 && s[0] == '"' {
        quotes_front(s.drop_first())
    } else {
        s
    }
}

/// The sequence with its trailing double quotes removed.
pub open spec fn quotes_back(s: Seq<char>) -> Seq<char>
    decreases s.len(),
{
    if s.len() > 0 && s.last() == '"' {
        quotes_back(s.drop_last())
    } else {
        s
    }
}

proof fn lemma_quotes_front_skip(s: Seq<char>, k: int)
    requires
        0 <= k <= s.len(),
        forall|j: int| 0 <= j < k ==> s[j] == '"',
        k == s.len() || s[k] != '"',
    ensures
        quotes_front(s) == s.skip(k),
    decreases k,
{
    if k == 0 {
        assert(s.skip(0) =~= s);
    } else {
        lemma_quotes_front_skip(s.drop_first(), k - 1);
        assert(s.drop_first().skip(k - 1) =~= s.skip(k));
    }
}

proof fn lemma_quotes_back_take(s: Seq<char>, h: int)
    requires
        0 <= h <= s.len(),
        forall|j: int| h <= j < s.len() ==> s[j] == '"',
        h == 0 || s[h - 1] != '"',
    ensures
        quotes_back(s) == s.take(h),
    decreases s.len() - h,
{
    if h == s.len() {
        assert(s.take(h) =~= s);
    } else {
        lemma_quotes_back_take(s.drop_last(), h);
        assert(s.drop_last().take(h) =~= s.take(h));
    }
}

/// What the model returned, made into a title: blanks trimmed, surrounding
/// double quotes stripped, one trailing period dropped.
pub open spec fn clean_title_spec(s: Seq<char>) -> Seq<char> {
    let t = quotes_back(quotes_front(trim_spec(s)));
    if t.len() > 0 && t.last() == '.' {
        t.drop_last()
    } else {
        t
    }
}

/// Cleans a title returned by the model, per `clean_title_spec`.
pub fn clean_title(response: &str) -> (r: String)
    ensures
        r@ == clean_title_spec(response@),
{
    let chars = str_to_chars(response);
    let t = trim_chars(&chars);
    let n = t.len();
    let mut lo: usize = 0;
    while lo < n && t[lo] == '"'
        invariant
            0 <= lo <= n,
            n == t@.len(),
            forall|j: int| 0 <= j < lo ==> t@[j] == '"',
        decreases n - lo,
    {
        lo = lo + 1;
    }
    proof {
        lemma_quotes_front_skip(t@, lo as int);
    }
    let mut hi: usize = n;
    while hi > lo && t[hi - 1] == '"'
        invariant
            lo <= hi <= n,
            n == t@.len(),
            forall|j: int| hi <= j < n ==> t@[j] == '"',
        decreases hi,
    {
        hi = hi - 1;
    }
    proof {
        let tail = t@.skip(lo as int);
        lemma_quotes_back_take(tail, hi - lo);
        assert(tail.take(hi - lo) =~= t@.subrange(lo as int, hi as int));
    }
    let hi2 = if hi > lo && t[hi - 1] == '.' {
        hi - 1
    } else {
        hi
    };
    proof {
        let stripped = t@.subrange(lo as int, hi as int);
        if stripped.len() > 0 && stripped.last() == '.' {
            assert(stripped.drop_last() =~= t@.subrange(lo as int, hi2 as int));
        }
    }
    let mut out: Vec<char> = Vec::new();
    let mut i: usize = lo;
    while i < hi2
        invariant
            lo <= i <= hi2 <= t@.len(),
            out@ == t@.subrange(lo as int, i as int),
        decreases hi2 - i,
    {
        out.push(t[i]);
        proof {
            assert(t@.subrange(lo as int, i + 1 as int) =~= t@.subrange(lo as int, i as int).push(
                t@[i as int],
            ));
        }
        i = i + 1;
    }
    chars_to_string(&out)
}

/// The fixed instruction the title job sends, around the user's first
/// message.
pub open spec fn title_prompt_spec(user_text: Seq<char>) -> Seq<char> {
    "Generate a very short, creative 2-4 word title for a chat that starts with: \""@ + user_text
        + "\". Output ONLY the title, no quotes or punctuation."@
}

/// Composes the title job's prompt.
pub fn build_title_prompt(user_text: &str) -> (r: String)
    ensures
        r@ == title_prompt_spec(user_text@),
{
    let mut out: Vec<char> = Vec::new();
    push_str_chars(
        &mut out,
        "Generate a very short, creative 2-4 word title for a chat that starts with: \"",
    );
    push_str_chars(&mut out, user_text);
    push_str_chars(&mut out, "\". Output ONLY the title, no quotes or punctuation.");
    chars_to_string(&out)
}

/// The fixed instruction the memory job sends, around the existing memory
/// blob. The recent conversation is carried as the preceding messages.
pub open spec fn memory_prompt_spec(existing: Seq<char>) -> Seq<char> {
    "You are a memory module. Based on the recent conversation above and the existing knowledge about the user, update the Long-term Memory. Existing Knowledge:\n"@
        + existing
        + "\n\nRequirements:\n1. Output a concise, bulleted list of facts, preferences, and important context about the user.\n2. Include new info from this chat.\n3. Keep it brief and relevant for future assistance.\n4. Output ONLY the list, no headers or conversational text."@
}

/// Composes the memory job's prompt around the memory read fresh at job
/// start.
pub fn build_memory_prompt(existing: &str) -> (r: String)
    ensures
        r@ == memory_prompt_spec(existing@),
{
    let mut out: Vec<char> = Vec::new();
    push_str_chars(
        &mut out,
        "You are a memory module. Based on the recent conversation above and the existing knowledge about the user, update the Long-term Memory. Existing Knowledge:\n",
    );
    push_str_chars(&mut out, existing);
    push_str_chars(
        &mut out,
        "\n\nRequirements:\n1. Output a concise, bulleted list of facts, preferences, and important context about the user.\n2. Include new info from this chat.\n3. Keep it brief and relevant for future assistance.\n4. Output ONLY the list, no headers or conversational text.",
    );
    chars_to_string(&out)
}

/// What the memory job writes back: the trimmed response when it holds
/// anything, nothing otherwise — so a failed or empty response leaves the
/// stored memory untouched.
pub fn memory_update_from_response(response: &str) -> (r: Option<String>)
    ensures
        match r {
            Some(b) => trim_spec(response@).len() > 0 && b@ == trim_spec(response@),
            None => trim_spec(response@).len() == 0,
        },
{
    let chars = str_to_chars(response);
    let t = trim_chars(&chars);
    if t.len() == 0 {
        None
    } else {
        Some(chars_to_string(&t))
    }
}

/// The position of the first history entry with the given id.
pub open spec fn find_entry(hs: Seq<ChatHistoryV>, id: Seq<char>) -> Option<int>
    decreases hs.len(),
{
    if hs.len() == 0 {
        None
    } else if hs[0].id == id {
        Some(0int)
    } else {
        match find_entry(hs.drop_first(), id) {
            Some(k) => Some(k + 1),
            None => None,
        }
    }
}

pub proof fn lemma_find_entry_at(hs: Seq<ChatHistoryV>, id: Seq<char>, j: int)
    requires
        0 <= j < hs.len(),
        forall|k: int| 0 <= k < j ==> (#[trigger] hs[k].id) != id,
        hs[j].id == id,
    ensures
        find_entry(hs, id) == Some(j),
    decreases j,
{
    if j > 0 {
        lemma_find_entry_at(hs.drop_first(), id, j - 1);
    }
}

pub proof fn lemma_find_entry_none(hs: Seq<ChatHistoryV>, id: Seq<char>)
    requires
        forall|k: int| 0 <= k < hs.len() ==> (#[trigger] hs[k].id) != id,
    ensures
        find_entry(hs, id) is None,
    decreases hs.len(),
{
    if hs.len() > 0 {
        lemma_find_entry_none(hs.drop_first(), id);
    }
}

/// Gives the entry of the given id the given title: the history with that
/// one entry retitled, or unchanged when the id is absent or the title
/// empty.
pub open spec fn retitled(hs: Seq<ChatHistoryV>, id: Seq<char>, title: Seq<char>) -> Seq<
    ChatHistoryV,
> {
    if title.len() == 0 {
        hs
    } else {
        match find_entry(hs, id) {
            Some(k) => hs.update(k, ChatHistoryV { title: title, ..hs[k] }),
            None => hs,
        }
    }
}

/// Sets the title of the entry with the given id, refusing an empty title.
/// Returns whether anything changed.
pub fn rename_entry(history: &mut Vec<ChatHistory>, id: &String, title: String) -> (changed: bool)
    ensures
        history_view(final(history)@) == retitled(history_view(old(history)@), id@, title@),
        changed == (title@.len() > 0 && find_entry(history_view(old(history)@), id@) is Some),
{
    let ghost hs = history_view(history@);
    if title.as_str().is_empty() {
        return false;
    }
    let mut j: usize = 0;
    while j < history.len()
        invariant
            0 <= j <= history@.len(),
            history@ == old(history)@,
            hs == history_view(history@),
            hs.len() == history@.len(),
            title@.len() > 0,
            forall|k: int| 0 <= k < j ==> (#[trigger] hs[k].id) != id@,
        decreases history@.len() - j,
    {
        if history[j].id == *id {
            proof {
                lemma_find_entry_at(hs, id@, j as int);
            }
            let ghost before = history@;
            let old_entry = history.remove(j);
            let new_entry = ChatHistory { id: old_entry.id, title, messages: old_entry.messages };
            proof {
                assert(new_entry@ == (ChatHistoryV { title: new_entry.title@, ..hs[j as int] }));
            }
            history.insert(j, new_entry);
            proof {
                assert(history@ =~= before.update(j as int, history@[j as int]));
                assert(history_view(history@) =~= hs.update(
                    j as int,
                    ChatHistoryV { title: history@[j as int].title@, ..hs[j as int] },
                ));
            }
            return true;
        }
        j = j + 1;
    }
    proof {
        lemma_find_entry_none(hs, id@);
    }
    false
}

/// Applies the title job's result: the response is cleaned per
/// `clean_title_spec`; when something is left and the entry still exists,
/// its title is overwritten. On an empty result the provisional title stays,
/// and the caller reports nothing — a failed title job is not an error.
pub fn apply_title_result(history: &mut Vec<ChatHistory>, id: &String, response: &str) -> (changed:
    bool)
    ensures
        history_view(final(history)@) == retitled(
            history_view(old(history)@),
            id@,
            clean_title_spec(response@),
        ),
        changed == (clean_title_spec(response@).len() > 0 && find_entry(
            history_view(old(history)@),
            id@,
        ) is Some),
{
    let cleaned = clean_title(response);
    rename_entry(history, id, cleaned)
}

/// Whether the turn that just completed was the first exchange: at most the
/// system message, the user message and the assistant reply.
pub fn is_first_exchange(messages: &Vec<Message>) -> (r: bool)
    ensures
        r == (messages@.len() <= 3),
{
    messages.len() <= 3
}

} // verus!
