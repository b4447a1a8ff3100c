use vstd::prelude::*;
use crate::text::{
    append_range, chars_of, find_from, first_match, lemma_first_match, matches_at,
    str_eq, string_from_range, trim_end, trim_end_seq, trim_seq, trimmed_bounds,
};

verus! {

/// The tag that opens an effect in an LLM response.
pub open spec fn open_tag() -> Seq<char> {
    "<effect>"@
}

/// The tag that closes an effect in an LLM response.
pub open spec fn close_tag() -> Seq<char> {
    "</effect>"@
}

/// A match that `first_match` reports lies inside `h`.
pub proof fn lemma_first_match_in_bounds(h: Seq<char>, n: Seq<char>)
    ensures
        first_match(h, n) matches Some(i) ==> 0 <= i && i + n.len() <= h.len(),
{
    if let Some(i) = first_match(h, n) {
        lemma_first_match_from_in_bounds(h, n, 0);
    }
}

/// A match that `first_match_from` reports lies inside `h`, at or after `k`.
pub proof fn lemma_first_match_from_in_bounds(h: Seq<char>, n: Seq<char>, k: int)
    requires
        0 <= k,
    ensures
        crate::text::first_match_from(h, n, k) matches Some(i) ==> k <= i && i + n.len()
            <= h.len(),
    decreases h.len() + 1 - k,
{
    if k + n.len() <= h.len() && !matches_at(h, k, n) {
        lemma_first_match_from_in_bounds(h, n, k + 1);
    }
}

/// Scans `rest` for effect tags. The first component is the text outside
/// closed tags; the second holds the trimmed body of each closed tag, in
/// order. An opening tag with no closing tag after it, and everything after
/// it, is kept as text.
pub open spec fn scan_effects(rest: Seq<char>) -> (Seq<char>, Seq<Seq<char>>)
    decreases rest.len(),
{
    match first_match(rest, open_tag()) {
        None => (rest, Seq::empty()),
        Some(start) => {
            let after = rest.skip(start + open_tag().len());
            match first_match(after, close_tag()) {
                None => (rest, Seq::empty()),
                Some(end) => {
                    proof {
                        reveal_strlit("<effect>");
                        lemma_first_match_in_bounds(rest, open_tag());
                        lemma_first_match_in_bounds(after, close_tag());
                    }
                    let tail = scan_effects(after.skip(end + close_tag().len()));
                    (
                        rest.take(start) + tail.0,
                        seq![trim_seq(after.take(end))] + tail.1,
                    )
                }
            }
        }
    }
}

/// A response with no opening tag is kept whole and carries no effects.
pub proof fn lemma_untagged_text_kept(text: Seq<char>)
    requires
        first_match(text, open_tag()) is None,
    ensures
        scan_effects(text) == (text, Seq::<Seq<char>>::empty()),
{
}

/// The first occurrence of `n` in `t[pos..]`, as an index into `t`.
fn find_in_rest(t: &Vec<char>, pos: usize, n: &Vec<char>) -> (r: Option<usize>)
    requires
        pos <= t@.len(),
    ensures
        r matches Some(i) ==> pos <= i && i + n@.len() <= t@.len(),
        match first_match(t@.skip(pos as int), n@) {
            Some(i) => r == Some((i + pos) as usize),
            None => r is None,
        },
{
    let r = find_from(t, pos, n);
    let ghost rest = t@.skip(pos as int);
    proof {
        assert forall|j: int| 0 <= j implies #[trigger] matches_at(rest, j, n@) == matches_at(
            t@,
            j + pos,
            n@,
        ) by {
            if j + n@.len() <= rest.len() {
                assert(rest.subrange(j, j + n@.len()) =~= t@.subrange(
                    j + pos,
                    j + pos + n@.len(),
                ));
            }
        }
        match r {
            Some(i) => {
                assert forall|j: int| 0 <= j < i - pos implies !matches_at(rest, j, n@) by {
                    assert(!matches_at(t@, j + pos, n@));
                }
                assert(matches_at(t@, (i - pos) + pos, n@));
                lemma_first_match(rest, n@, Some(i - pos));
            },
            None => {
                assert forall|j: int| 0 <= j implies !matches_at(rest, j, n@) by {
                    assert(!matches_at(t@, j + pos, n@));
                }
                lemma_first_match(rest, n@, None);
            },
        }
    }
    r
}

/// Separates `<effect>…</effect>` tags from an LLM response. Returns the
/// text with every closed tag removed and trailing white space trimmed, and
/// the trimmed body of each closed tag, in order. An unclosed tag stops the
/// scan and is left in the text.
pub fn split_effects(text: &str) -> (r: (String, Vec<String>))
    ensures
        r.0@ == trim_end_seq(scan_effects(text@).0),
        r.1@.map_values(|p: String| p@) == scan_effects(text@).1,
{
    let t = chars_of(text);
    let open = chars_of("<effect>");
    let close = chars_of("</effect>");
    proof {
        reveal_strlit("<effect>");
        reveal_strlit("</effect>");
    }
    let mut cleaned = String::new();
    let mut payloads: Vec<String> = Vec::new();
    let mut pos: usize = 0;
    let tl = t.len();
    assert(t@.skip(0) =~= t@);
    loop
        invariant_except_break
            tl == t@.len(),
            pos <= t@.len(),
            open@ == open_tag(),
            close@ == close_tag(),
            open@.len() == 8,
            close@.len() == 9,
            scan_effects(t@).0 == cleaned@ + scan_effects(t@.skip(pos as int)).0,
            scan_effects(t@).1 == payloads@.map_values(|p: String| p@) + scan_effects(
                t@.skip(pos as int),
            ).1,
        ensures
            cleaned@ == scan_effects(t@).0,
            payloads@.map_values(|p: String| p@) == scan_effects(t@).1,
        decreases t@.len() - pos,
    {
        let ghost rest = t@.skip(pos as int);
        let ghost before = cleaned@;
        let ghost before_payloads = payloads@.map_values(|p: String| p@);
        match find_in_rest(&t, pos, &open) {
            None => {
                append_range(&mut cleaned, &t, pos, t.len());
                assert(t@.subrange(pos as int, t@.len() as int) =~= rest);
                assert(cleaned@ =~= scan_effects(t@).0);
                assert(payloads@.map_values(|p: String| p@) =~= scan_effects(t@).1);
                break ;
            },
            Some(start) => {
                proof {
                    lemma_first_match_in_bounds(rest, open_tag());
                    assert(first_match(rest, open_tag()) == Some(start - pos));
                }
                let body_start = start + 8;
                let ghost after = rest.skip(start - pos + 8);
                assert(after =~= t@.skip(body_start as int));
                match find_in_rest(&t, body_start, &close) {
                    None => {
                        append_range(&mut cleaned, &t, pos, t.len());
                        assert(t@.subrange(pos as int, t@.len() as int) =~= rest);
                        assert(cleaned@ =~= scan_effects(t@).0);
                        assert(payloads@.map_values(|p: String| p@) =~= scan_effects(t@).1);
                        break ;
                    },
                    Some(end) => {
                        proof {
                            lemma_first_match_in_bounds(after, close_tag());
                            assert(first_match(after, close_tag()) == Some(end - body_start));
                            assert(scan_effects(rest) == (
                                rest.take(start - pos) + scan_effects(
                                    after.skip(end - body_start + 9),
                                ).0,
                                seq![trim_seq(after.take(end - body_start))] + scan_effects(
                                    after.skip(end - body_start + 9),
                                ).1,
                            ));
                        }
                        append_range(&mut cleaned, &t, pos, start);
                        let (a, b) = trimmed_bounds(&t, body_start, end);
                        let payload = string_from_range(&t, a, b);
                        payloads.push(payload);
                        let ghost next = end + 9;
                        assert(rest.take(start - pos) =~= t@.subrange(pos as int, start as int));
                        assert(after.take(end - body_start) =~= t@.subrange(
                            body_start as int,
                            end as int,
                        ));
                        assert(after.skip(end - body_start + 9) =~= t@.skip(next));
                        assert(payloads@.map_values(|p: String| p@) =~= before_payloads.push(
                            trim_seq(t@.subrange(body_start as int, end as int)),
                        ));
                        pos = end + 9;
                        assert(scan_effects(t@).0 =~= cleaned@ + scan_effects(
                            t@.skip(pos as int),
                        ).0);
                        assert(scan_effects(t@).1 =~= payloads@.map_values(|p: String| p@)
                            + scan_effects(t@.skip(pos as int)).1);
                    },
                }
            },
        }
    }
    let trimmed = trim_end(cleaned.as_str());
    (trimmed, payloads)
}

/// The opening of the effect grammar, up to the list of available types.
pub open spec fn instructions_head() -> Seq<char> {
    "\n\nGAME EFFECTS\n\
If your response commits to a concrete game-world action, append a single effect tag \
on its own line at the very end of your message — after all narrative text:\n\
  <effect>{...}</effect>\n\n\
Available types:\n"@
}

/// The rules that follow the list of available types.
pub open spec fn instructions_rules() -> Seq<char> {
    "\n\n\
Rules:\n\
- Only emit an effect when your narrative explicitly describes that action as happening now\n\
- \"to_player: true\" means resources flow to the player; false means the reverse\n\
- Do not manufacture reasons to trigger effects; most messages need none\n\
- You cannot give resources you wouldn't plausibly have"@
}

/// The effects a companion may emit, and the feature it may unlock.
pub open spec fn companion_effects() -> Seq<char> {
    r#"  {"type": "set_objective", "text": "concise objective description"}
  {"type": "transfer_resource", "resource": "He-3" or "D", "amount_g": <float>, "to_player": <bool>}
  {"type": "transfer_fuel", "amount": <float>, "to_player": <bool>}
  {"type": "transfer_pellets", "count": <int>, "to_player": <bool>}
  {"type": "unlock_feature", "feature": "atmo_scoop"}

Unlockable features you know about:
  atmo_scoop — orbital atmospheric scooping on gas giants and ice giants for He-3/D
    collection without landing. Bypasses Extreme surface risk. Emit this unlock if the
    player asks about alternative fuel sources, seems stuck for fuel, or the topic
    comes up naturally. Do not force it; let it arise from the conversation."#@
}

/// The one effect ARIA, being onboard, may emit.
pub open spec fn aria_effects() -> Seq<char> {
    r#"  {"type": "set_objective", "text": "concise objective description"}"#@
}

/// The system-prompt text that teaches an LLM the effect grammar.
pub open spec fn instructions_for(source_role: Seq<char>) -> Seq<char> {
    instructions_head() + (if source_role == "companion"@ {
        companion_effects()
    } else {
        aria_effects()
    }) + instructions_rules()
}

/// The system prompt instructions injected so LLMs know the effect grammar.
/// `source_role` is either "companion" or "ARIA" to tailor available effects:
/// only a companion may move resources or unlock features.
pub fn effect_instructions(source_role: &str) -> (r: String)
    ensures
        r@ == instructions_for(source_role@),
{
    let available = if str_eq(source_role, "companion") {
        r#"  {"type": "set_objective", "text": "concise objective description"}
  {"type": "transfer_resource", "resource": "He-3" or "D", "amount_g": <float>, "to_player": <bool>}
  {"type": "transfer_fuel", "amount": <float>, "to_player": <bool>}
  {"type": "transfer_pellets", "count": <int>, "to_player": <bool>}
  {"type": "unlock_feature", "feature": "atmo_scoop"}

Unlockable features you know about:
  atmo_scoop — orbital atmospheric scooping on gas giants and ice giants for He-3/D
    collection without landing. Bypasses Extreme surface risk. Emit this unlock if the
    player asks about alternative fuel sources, seems stuck for fuel, or the topic
    comes up naturally. Do not force it; let it arise from the conversation."#
    } else {
        r#"  {"type": "set_objective", "text": "concise objective description"}"#
    };
    let mut r = String::from_str(
        "\n\nGAME EFFECTS\n\
If your response commits to a concrete game-world action, append a single effect tag \
on its own line at the very end of your message — after all narrative text:\n\
  <effect>{...}</effect>\n\n\
Available types:\n",
    );
    r.append(available);
    r.append(
        "\n\n\
Rules:\n\
- Only emit an effect when your narrative explicitly describes that action as happening now\n\
- \"to_player: true\" means resources flow to the player; false means the reverse\n\
- Do not manufacture reasons to trigger effects; most messages need none\n\
- You cannot give resources you wouldn't plausibly have",
    );
    r
}

} // verus!
