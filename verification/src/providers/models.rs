//! The model identifiers an endpoint offers, normalized across provider
//! shapes and listed in `String` order without repetition.

use vstd::prelude::*;
use crate::json::{as_array, as_text, get, items_of, json_get, text_of, JsonValue, JsonView};
use crate::providers::config::ProviderKind;
use crate::providers::error::ProviderError;
use crate::json::views;
use crate::text::{
    chars_of, lemma_text_lt_irreflexive, lemma_text_lt_total, lemma_text_lt_transitive, string_of,
    text_less, text_lt,
};

verus! {

/// A Gemini model name without its `models/` prefix.
pub open spec fn without_models_prefix(name: Seq<char>) -> Seq<char> {
    if name.len() >= 7 && name.take(7) == "models/"@ {
        name.skip(7)
    } else {
        name
    }
}

/// The identifiers listed under `list_key`, each read from `id_key`, in order;
/// entries without a string there are skipped.
pub open spec fn listed_ids(items: Seq<JsonView>, id_key: Seq<char>, strip: bool) -> Seq<Seq<char>>
    decreases items.len(),
{
    if items.len() == 0 {
        Seq::empty()
    } else {
        let rest = listed_ids(items.drop_last(), id_key, strip);
        match as_text(json_get(items.last(), id_key)) {
            Some(n) => rest.push(
                if strip {
                    without_models_prefix(n)
                } else {
                    n
                },
            ),
            None => rest,
        }
    }
}

/// The model identifiers of a model-list body: Gemini lists
/// `{"models":[{"name":"models/..."}]}`, the others `{"data":[{"id":"..."}]}`.
pub open spec fn model_ids_of(kind: ProviderKind, body: JsonView) -> Seq<Seq<char>> {
    match kind {
        ProviderKind::Gemini => match as_array(json_get(body, "models"@)) {
            Some(items) => listed_ids(items, "name"@, true),
            None => Seq::empty(),
        },
        _ => match as_array(json_get(body, "data"@)) {
            Some(items) => listed_ids(items, "id"@, false),
            None => Seq::empty(),
        },
    }
}

/// Each text comes before the next in `String` order.
pub open spec fn strictly_sorted(s: Seq<Seq<char>>) -> bool {
    forall|i: int, j: int| 0 <= i < j < s.len() ==> text_lt(#[trigger] s[i], #[trigger] s[j])
}

pub open spec fn string_views(v: Seq<String>) -> Seq<Seq<char>> {
    v.map_values(|s: String| s@)
}

fn text_eq(a: &String, b: &String) -> (r: bool)
    ensures
        r == (a@ == b@),
{
    *a == *b
}

/// Inserts a name into a strictly sorted list unless it is there already.
fn insert_sorted_unique(out: &mut Vec<String>, name: String)
    requires
        strictly_sorted(string_views(old(out)@)),
    ensures
        strictly_sorted(string_views(final(out)@)),
        string_views(final(out)@).to_set() == string_views(old(out)@).to_set().insert(name@),
{
    let ghost before = string_views(out@);
    let name_chars = chars_of(name.as_str());
    let mut i: usize = 0;
    while i < out.len() && text_less(&chars_of(out[i].as_str()), &name_chars)
        invariant
            i <= out@.len(),
            out@ == old(out)@,
            before == string_views(out@),
            name_chars@ == name@,
            strictly_sorted(before),
            forall|j: int| 0 <= j < i ==> text_lt(#[trigger] before[j], name@),
        decreases out@.len() - i,
    {
        i = i + 1;
    }
    if i < out.len() && text_eq(&out[i], &name) {
        assert(before[i as int] == name@);
        assert(before.to_set().insert(name@) =~= before.to_set());
        return;
    }
    let ghost pos = i as int;
    proof {
        if pos < before.len() {
            lemma_text_lt_total(before[pos], name@);
        }
    }
    out.insert(i, name);
    let ghost after = string_views(out@);
    assert(after =~= before.insert(pos, after[pos]));
    assert forall|a: int, b: int| 0 <= a < b < after.len() implies text_lt(
        #[trigger] after[a],
        #[trigger] after[b],
    ) by {
        if b < pos {
        } else if b == pos {
            assert(text_lt(before[a], after[pos]));
        } else if a < pos {
            assert(text_lt(before[a], after[pos]));
            assert(text_lt(after[pos], before[pos]));
            if b - 1 > pos {
                lemma_text_lt_transitive(after[pos], before[pos], before[b - 1]);
            }
            lemma_text_lt_transitive(before[a], after[pos], before[b - 1]);
        } else if a == pos {
            assert(text_lt(after[pos], before[pos]));
            if b - 1 > pos {
                lemma_text_lt_transitive(after[pos], before[pos], before[b - 1]);
            }
        } else {
            assert(text_lt(before[a - 1], before[b - 1]));
        }
    }
    assert(after.to_set() =~= before.to_set().insert(name@)) by {
        assert forall|x: Seq<char>| after.to_set().contains(x) implies before.to_set().insert(
            name@,
        ).contains(x) by {
            let k = choose|k: int| 0 <= k < after.len() && after[k] == x;
            if k < pos {
                assert(before[k] == x);
            } else if k > pos {
                assert(before[k - 1] == x);
            }
        }
        assert forall|x: Seq<char>| before.to_set().insert(name@).contains(x) implies after.to_set().contains(
            x,
        ) by {
            if x == name@ {
                assert(after[pos] == x);
            } else {
                let k = choose|k: int| 0 <= k < before.len() && before[k] == x;
                if k < pos {
                    assert(after[k] == x);
                } else {
                    assert(after[k + 1] == x);
                }
            }
        }
    }
}

/// The names in `String` order, each once.
pub fn sorted_unique(names: Vec<String>) -> (out: Vec<String>)
    ensures
        strictly_sorted(string_views(out@)),
        string_views(out@).to_set() == string_views(names@).to_set(),
{
    let mut out: Vec<String> = Vec::new();
    let mut i: usize = 0;
    assert(string_views(out@).to_set() =~= string_views(names@.take(0)).to_set());
    while i < names.len()
        invariant
            i <= names@.len(),
            strictly_sorted(string_views(out@)),
            string_views(out@).to_set() == string_views(names@.take(i as int)).to_set(),
        decreases names@.len() - i,
    {
        let ghost prev = string_views(names@.take(i as int));
        insert_sorted_unique(&mut out, names[i].clone());
        assert(string_views(names@.take(i + 1)) =~= prev.push(names@[i as int]@));
        proof {
            prev.lemma_push_to_set_commute(names@[i as int]@);
        }
        i = i + 1;
    }
    assert(names@.take(names@.len() as int) =~= names@);
    out
}

fn strip_models_prefix(name: &str) -> (r: String)
    ensures
        r@ == without_models_prefix(name@),
{
    proof {
        reveal_strlit("models/");
    }
    let cs = chars_of(name);
    if cs.len() >= 7 && cs[0] == 'm' && cs[1] == 'o' && cs[2] == 'd' && cs[3] == 'e' && cs[4] == 'l'
        && cs[5] == 's' && cs[6] == '/' {
        assert(cs@.take(7) =~= "models/"@);
        let mut rest: Vec<char> = Vec::new();
        let mut i: usize = 7;
        while i < cs.len()
            invariant
                7 <= i <= cs@.len(),
                rest@ == cs@.subrange(7, i as int),
            decreases cs@.len() - i,
        {
            rest.push(cs[i]);
            i = i + 1;
            assert(rest@ =~= cs@.subrange(7, i as int));
        }
        string_of(&rest)
    } else {
        assert(cs@.len() >= 7 ==> cs@.take(7) != "models/"@) by {
            if cs@.len() >= 7 {
                let t = cs@.take(7);
                let m = "models/"@;
                if t == m {
                    assert(t[0] == m[0] && t[1] == m[1] && t[2] == m[2] && t[3] == m[3] && t[4]
                        == m[4] && t[5] == m[5] && t[6] == m[6]);
                }
            }
        }
        name.to_owned()
    }
}

/// The model identifiers of a parsed model-list body.
pub fn parse_model_ids(kind: ProviderKind, body: &JsonValue) -> (ids: Vec<String>)
    ensures
        string_views(ids@) == model_ids_of(kind, body@),
{
    let (list_key, id_key, strip) = match kind {
        ProviderKind::Gemini => ("models", "name", true),
        _ => ("data", "id", false),
    };
    let mut ids: Vec<String> = Vec::new();
    match items_of(get(body, list_key)) {
        Some(items) => {
            let ghost xs = views(items@);
            let mut i: usize = 0;
            while i < items.len()
                invariant
                    i <= items@.len(),
                    xs == views(items@),
                    string_views(ids@) == listed_ids(xs.take(i as int), id_key@, strip),
                decreases items@.len() - i,
            {
                assert(xs.take(i + 1).drop_last() =~= xs.take(i as int));
                assert(xs.take(i + 1).last() == items@[i as int]@);
                match text_of(get(&items[i], id_key)) {
                    Some(n) => {
                        let name = if strip {
                            strip_models_prefix(n)
                        } else {
                            n.to_owned()
                        };
                        ids.push(name);
                    },
                    None => {},
                }
                i = i + 1;
                assert(string_views(ids@) =~= listed_ids(xs.take(i as int), id_key@, strip));
            }
            assert(xs.take(xs.len() as int) =~= xs);
        },
        None => {},
    }
    ids
}

/// `e` is an invalid-response error with the given message.
pub open spec fn is_invalid_response(e: ProviderError, message: Seq<char>) -> bool {
    e matches ProviderError::InvalidResponse { message: m } && m@ == message
}

/// The model list of a response body (`None` when it was not JSON): its
/// identifiers in `String` order, each once; an error when there are none.
pub fn model_list(kind: ProviderKind, body: Option<&JsonValue>) -> (r: Result<
    Vec<String>,
    ProviderError,
>)
    ensures
        match body {
            None => r matches Err(e) && is_invalid_response(
                e,
                "model list response was not valid JSON"@,
            ),
            Some(b) => {
                let ids = model_ids_of(kind, b@);
                if ids.len() == 0 {
                    r matches Err(e) && is_invalid_response(
                        e,
                        "model list response contained no models"@,
                    )
                } else {
                    r matches Ok(models) && strictly_sorted(string_views(models@))
                        && string_views(models@).to_set() == ids.to_set()
                }
            },
        },
{
    let body = match body {
        Some(b) => b,
        None => {
            return Err(
                ProviderError::InvalidResponse {
                    message: "model list response was not valid JSON".to_owned(),
                },
            );
        },
    };
    let ids = parse_model_ids(kind, body);
    if ids.len() == 0 {
        return Err(
            ProviderError::InvalidResponse {
                message: "model list response contained no models".to_owned(),
            },
        );
    }
    Ok(sorted_unique(ids))
}

} // verus!
