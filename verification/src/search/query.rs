//! SQL generation for parsed search queries: a parameterized `SELECT` with
//! `?` placeholders, so no query text ever embeds user input.

use vstd::prelude::*;

use crate::search::filters::{DateOp, FileType, Filter, SizeOp};
use crate::search::parser::ParsedQuery;

verus! {

/// Mathematical model of one SQL parameter.
pub ghost enum SqlParamModel {
    /// A text parameter.
    Text(Seq<char>),
    /// An integer parameter.
    Integer(int),
}

/// SQL parameter value for prepared statements.
#[derive(Debug, Clone, PartialEq)]
pub enum SqlParam {
    /// Text parameter (strings, patterns).
    Text(String),
    /// Integer parameter (sizes, timestamps, booleans).
    Integer(i64),
}

impl View for SqlParam {
    type V = SqlParamModel;

    open spec fn view(&self) -> SqlParamModel {
        match self {
            SqlParam::Text(s) => SqlParamModel::Text(s@),
            SqlParam::Integer(n) => SqlParamModel::Integer(*n as int),
        }
    }
}

/// The views of a parameter list.
pub open spec fn param_views(s: Seq<SqlParam>) -> Seq<SqlParamModel> {
    s.map(|i: int, p: SqlParam| p@)
}

/// The views of a list of strings.
pub open spec fn str_views(s: Seq<String>) -> Seq<Seq<char>> {
    s.map(|i: int, t: String| t@)
}

/// What one wildcard-pattern character contributes to a `LIKE` pattern:
/// `*` becomes `%`, `?` becomes `_`, and the `LIKE` specials `%`, `_`, `\`
/// are escaped.
pub open spec fn spec_wild_char(c: char) -> Seq<char> {
    if c == '*' {
        seq!['%']
    } else if c == '?' {
        seq!['_']
    } else if c == '%' {
        seq!['\\', '%']
    } else if c == '_' {
        seq!['\\', '_']
    } else if c == '\\' {
        seq!['\\', '\\']
    } else {
        seq![c]
    }
}

/// A wildcard pattern converted character by character.
pub open spec fn spec_wild_body(p: Seq<char>) -> Seq<char>
    decreases p.len(),
{
    if p.len() == 0 {
        Seq::empty()
    } else {
        spec_wild_char(p.first()) + spec_wild_body(p.drop_first())
    }
}

/// Whether a pattern carries its own wildcards.
pub open spec fn spec_has_wildcards(p: Seq<char>) -> bool {
    p.contains('*') || p.contains('?')
}

/// The `LIKE` pattern of a name pattern: converted as is when it has
/// wildcards, wrapped in `%` for a substring match otherwise.
pub open spec fn spec_like_of(p: Seq<char>) -> Seq<char> {
    if spec_has_wildcards(p) {
        spec_wild_body(p)
    } else {
        seq!['%'] + spec_wild_body(p) + seq!['%']
    }
}

/// Convert a wildcard pattern to a SQL `LIKE` pattern.
pub fn convert_wildcards_to_sql(pattern: &str) -> (r: String)
    ensures
        r@ == spec_like_of(pattern@),
{
    let n = pattern.unicode_len();
    let mut has_wildcards: bool = false;
    let mut i: usize = 0;
    while i < n && !has_wildcards
        invariant
            n == pattern@.len(),
            i <= n,
            !has_wildcards ==> forall|l: int| 0 <= l < i ==> pattern@[l] != '*' && pattern@[l]
                != '?',
            has_wildcards ==> spec_has_wildcards(pattern@),
        decreases (if has_wildcards {
            0int
        } else {
            1int
        }), n - i,
    {
        let c = pattern.get_char(i);
        if c == '*' || c == '?' {
            has_wildcards = true;
        } else {
            i = i + 1;
        }
    }
    proof {
        if !has_wildcards {
            assert(forall|l: int| 0 <= l < pattern@.len() ==> pattern@[l] != '*' && pattern@[l]
                != '?');
            assert(!pattern@.contains('*'));
            assert(!pattern@.contains('?'));
        }
        reveal_strlit("%");
        reveal_strlit("_");
        reveal_strlit("\\%");
        reveal_strlit("\\_");
        reveal_strlit("\\\\");
        assert("%"@ =~= seq!['%']);
        assert("_"@ =~= seq!['_']);
        assert("\\%"@ =~= seq!['\\', '%']);
        assert("\\_"@ =~= seq!['\\', '_']);
        assert("\\\\"@ =~= seq!['\\', '\\']);
    }
    let mut result = String::new();
    if !has_wildcards {
        result.append("%");
    }
    let mut j: usize = 0;
    let ghost open_mark: Seq<char> = if has_wildcards {
        Seq::empty()
    } else {
        seq!['%']
    };
    while j < n
        invariant
            n == pattern@.len(),
            j <= n,
            result@ =~= open_mark + spec_wild_body(pattern@.take(j as int)),
            open_mark == (if has_wildcards {
                Seq::<char>::empty()
            } else {
                seq!['%']
            }),
            "%"@ =~= seq!['%'],
            "_"@ =~= seq!['_'],
            "\\%"@ =~= seq!['\\', '%'],
            "\\_"@ =~= seq!['\\', '_'],
            "\\\\"@ =~= seq!['\\', '\\'],
        decreases n - j,
    {
        let c = pattern.get_char(j);
        if c == '*' {
            result.append("%");
        } else if c == '?' {
            result.append("_");
        } else if c == '%' {
            result.append("\\%");
        } else if c == '_' {
            result.append("\\_");
        } else if c == '\\' {
            result.append("\\\\");
        } else {
            let cs = crate::ext::char_to_string(c);
            result.append(cs.as_str());
        }
        proof {
            lemma_wild_body_step(pattern@, j as int);
        }
        j = j + 1;
    }
    proof {
        assert(pattern@.take(n as int) =~= pattern@);
    }
    if !has_wildcards {
        result.append("%");
    }
    result
}

/// Converting one more character extends the converted body.
proof fn lemma_wild_body_step(p: Seq<char>, j: int)
    requires
        0 <= j < p.len(),
    ensures
        spec_wild_body(p.take(j + 1)) =~= spec_wild_body(p.take(j)) + spec_wild_char(p[j]),
    decreases j,
{
    if j == 0 {
        assert(p.take(1).first() == p[0]);
        assert(p.take(1).drop_first() =~= p.take(0));
    } else {
        assert(p.take(j + 1).first() == p[0]);
        assert(p.take(j).first() == p[0]);
        assert(p.take(j + 1).drop_first() =~= p.drop_first().take(j));
        assert(p.take(j).drop_first() =~= p.drop_first().take(j - 1));
        lemma_wild_body_step(p.drop_first(), j - 1);
        assert(p.drop_first()[j - 1] == p[j]);
    }
}

/// The condition and parameter one filter contributes, if any; path scoping
/// is handled outside the store and adds no condition.
pub open spec fn spec_filter_cond(f: Filter) -> Option<(Seq<char>, SqlParamModel)> {
    match f {
        Filter::Extension(e) => Some(("name LIKE ?"@, SqlParamModel::Text("%."@ + e@))),
        Filter::Size(op, n) => Some(
            ("size "@ + op.spec_sql() + " ?"@, SqlParamModel::Integer(n as int)),
        ),
        Filter::Type(t) => Some(
            (
                "is_dir = ?"@,
                SqlParamModel::Integer(
                    if t == FileType::Folder {
                        1int
                    } else {
                        0int
                    },
                ),
            ),
        ),
        Filter::Modified(op, ts) => Some(
            ("modified "@ + op.spec_sql() + " ?"@, SqlParamModel::Integer(ts as int)),
        ),
        Filter::PathScope(_) => None,
    }
}

/// The conditions and parameters a filter list contributes, in order.
pub open spec fn spec_conds(fs: Seq<Filter>) -> Seq<(Seq<char>, SqlParamModel)>
    decreases fs.len(),
{
    if fs.len() == 0 {
        Seq::empty()
    } else {
        (match spec_filter_cond(fs.first()) {
            Some(c) => seq![c],
            None => Seq::empty(),
        }) + spec_conds(fs.drop_first())
    }
}

/// All conditions of a query: the name pattern first, then the filters.
pub open spec fn spec_all_conds(q: ParsedQuery) -> Seq<(Seq<char>, SqlParamModel)> {
    (match q.pattern {
        Some(p) => seq![
            ("name LIKE ? ESCAPE '\\'"@, SqlParamModel::Text(spec_like_of(p@))),
        ],
        None => Seq::empty(),
    }) + spec_conds(q.filters@)
}

/// The condition texts.
pub open spec fn cond_texts(cs: Seq<(Seq<char>, SqlParamModel)>) -> Seq<Seq<char>> {
    cs.map(|i: int, c: (Seq<char>, SqlParamModel)| c.0)
}

/// The condition parameters.
pub open spec fn cond_params(cs: Seq<(Seq<char>, SqlParamModel)>) -> Seq<SqlParamModel> {
    cs.map(|i: int, c: (Seq<char>, SqlParamModel)| c.1)
}

/// Conditions joined with ` AND `.
pub open spec fn spec_join_and(cs: Seq<Seq<char>>) -> Seq<char>
    decreases cs.len(),
{
    if cs.len() == 0 {
        Seq::empty()
    } else if cs.len() == 1 {
        cs[0]
    } else {
        spec_join_and(cs.drop_last()) + " AND "@ + cs.last()
    }
}

/// The complete statement text of a query.
pub open spec fn spec_sql_text(q: ParsedQuery) -> Seq<char> {
    let conds = cond_texts(spec_all_conds(q));
    "SELECT id, volume_id, file_ref, parent_ref, name, size, modified, is_dir FROM files "@ + (if conds.len()
        == 0 {
        Seq::<char>::empty()
    } else {
        "WHERE "@ + spec_join_and(conds)
    }) + " ORDER BY name COLLATE NOCASE LIMIT ?"@
}

/// The parameter list of a query, ending in the result limit.
pub open spec fn spec_sql_params(q: ParsedQuery, limit: int) -> Seq<SqlParamModel> {
    cond_params(spec_all_conds(q)) + seq![SqlParamModel::Integer(limit)]
}

/// Build the SQL query of a parsed search: the statement text with `?`
/// placeholders, and the parameters to bind, ending in the default limit of
/// one hundred rows.
pub fn build_sql_query(parsed: &ParsedQuery) -> (r: (String, Vec<SqlParam>))
    ensures
        r.0@ == spec_sql_text(*parsed),
        param_views(r.1@) =~= spec_sql_params(*parsed, 100),
{
    let mut conditions: Vec<String> = Vec::new();
    let mut params: Vec<SqlParam> = Vec::new();

    match &parsed.pattern {
        Some(p) => {
            let sql_pattern = convert_wildcards_to_sql(p.as_str());
            conditions.push(String::from_str("name LIKE ? ESCAPE '\\'"));
            params.push(SqlParam::Text(sql_pattern));
            proof {
                assert(conditions@.len() == 1);
                assert(conditions@[0]@ == "name LIKE ? ESCAPE '\\'"@);
                assert(params@[0]@ == SqlParamModel::Text(spec_like_of(p@)));
            }
        },
        None => (),
    }
    proof {
        assert(parsed.filters@.skip(0) =~= parsed.filters@);
        assert(str_views(conditions@) + cond_texts(spec_conds(parsed.filters@.skip(0)))
            =~= cond_texts(spec_all_conds(*parsed)));
        assert(param_views(params@) + cond_params(spec_conds(parsed.filters@.skip(0)))
            =~= cond_params(spec_all_conds(*parsed)));
    }

    let ghost fs = parsed.filters@;
    let mut i: usize = 0;
    while i < parsed.filters.len()
        invariant
            fs == parsed.filters@,
            i <= fs.len(),
            str_views(conditions@) + cond_texts(spec_conds(fs.skip(i as int))) =~= cond_texts(
                spec_all_conds(*parsed),
            ),
            param_views(params@) + cond_params(spec_conds(fs.skip(i as int))) =~= cond_params(
                spec_all_conds(*parsed),
            ),
        decreases fs.len() - i,
    {
        proof {
            assert(fs.skip(i as int).first() == fs[i as int]);
            assert(fs.skip(i as int).drop_first() =~= fs.skip(i + 1));
        }
        let filter = &parsed.filters[i];
        match filter {
            Filter::Extension(ext) => {
                let mut pat = String::from_str("%.");
                pat.append(ext.as_str());
                proof {
                    reveal_strlit("%.");
                    assert(pat@ =~= "%."@ + ext@);
                }
                conditions.push(String::from_str("name LIKE ?"));
                params.push(SqlParam::Text(pat));
            },
            Filter::Size(op, bytes) => {
                let mut cond = String::from_str("size ");
                cond.append(op.to_sql());
                cond.append(" ?");
                conditions.push(cond);
                params.push(SqlParam::Integer(*bytes));
            },
            Filter::Type(file_type) => {
                let is_dir: i64 = match file_type {
                    FileType::Folder => 1,
                    FileType::File => 0,
                };
                conditions.push(String::from_str("is_dir = ?"));
                params.push(SqlParam::Integer(is_dir));
            },
            Filter::Modified(op, timestamp) => {
                let mut cond = String::from_str("modified ");
                cond.append(op.to_sql());
                cond.append(" ?");
                conditions.push(cond);
                params.push(SqlParam::Integer(*timestamp));
            },
            Filter::PathScope(_) => {
                // Path scoping needs reconstructed paths; the caller
                // filters on them after the store answers.
            },
        }
        i = i + 1;
    }
    proof {
        assert(fs.skip(fs.len() as int) =~= Seq::<Filter>::empty());
        assert(str_views(conditions@) =~= cond_texts(spec_all_conds(*parsed)));
        assert(param_views(params@) =~= cond_params(spec_all_conds(*parsed)));
    }

    let mut sql = String::from_str(
        "SELECT id, volume_id, file_ref, parent_ref, name, size, modified, is_dir FROM files ",
    );
    if conditions.len() > 0 {
        sql.append("WHERE ");
        let ghost texts = str_views(conditions@);
        let mut j: usize = 0;
        let ghost sql_head = sql@;
        while j < conditions.len()
            invariant
                texts == str_views(conditions@),
                j <= conditions@.len(),
                conditions@.len() > 0,
                j > 0 ==> sql@ =~= sql_head + spec_join_and(texts.take(j as int)),
                j == 0 ==> sql@ =~= sql_head,
            decreases conditions@.len() - j,
        {
            if j > 0 {
                sql.append(" AND ");
            }
            sql.append(conditions[j].as_str());
            proof {
                assert(texts.take(j + 1 as int).drop_last() =~= texts.take(j as int));
                assert(texts.take(j + 1 as int).last() == conditions@[j as int]@);
                if j > 0 {
                    reveal_strlit(" AND ");
                }
            }
            j = j + 1;
        }
        proof {
            assert(texts.take(conditions@.len() as int) =~= texts);
        }
    }
    sql.append(" ORDER BY name COLLATE NOCASE LIMIT ?");
    params.push(SqlParam::Integer(100));
    proof {
        assert(param_views(params@) =~= spec_sql_params(*parsed, 100));
    }
    (sql, params)
}

/// Build the SQL query of a parsed search with a custom result limit.
pub fn build_sql_query_with_limit(parsed: &ParsedQuery, limit: i64) -> (r: (String, Vec<SqlParam>))
    ensures
        r.0@ == spec_sql_text(*parsed),
        param_views(r.1@) =~= spec_sql_params(*parsed, limit as int),
{
    let (sql, mut params) = build_sql_query(parsed);
    let ghost before = params@;
    proof {
        assert(param_views(before) =~= spec_sql_params(*parsed, 100));
        assert(param_views(before).len() == before.len());
        assert(before.len() > 0);
    }
    let _ = params.pop();
    params.push(SqlParam::Integer(limit));
    proof {
        assert(params@ =~= before.drop_last().push(SqlParam::Integer(limit)));
        assert(param_views(before.drop_last()) =~= param_views(before).drop_last());
        assert(param_views(before).drop_last() =~= cond_params(spec_all_conds(*parsed)));
        assert(param_views(params@) =~= spec_sql_params(*parsed, limit as int));
    }
    (sql, params)
}

} // verus!
