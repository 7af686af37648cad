use vstd::prelude::*;

use crate::config::{pairs_view, ConfigModel, DmtConfig, EnvConfig, EnvModel};
use crate::order::chars_of;
use crate::text::{find_char, find_in, lemma_find_in_bounds, substring, trim, trim_bounds};

verus! {

/// The variable a line `s[a..b]` of an environment file sets, if any: blank
/// lines and lines without `=` set none; otherwise the name is what precedes
/// the first `=` and the value what follows it up to the next `=` or the end,
/// both trimmed of white space.
pub open spec fn entry_at(s: Seq<char>, a: int, b: int) -> Option<(Seq<char>, Seq<char>)> {
    if trim(s.subrange(a, b)).len() == 0 {
        None
    } else {
        match find_in(s, '=', a, b) {
            None => None,
            Some(e) => {
                let end = match find_in(s, '=', e + 1, b) {
                    Some(f) => f,
                    None => b,
                };
                Some((trim(s.subrange(a, e)), trim(s.subrange(e + 1, end))))
            },
        }
    }
}

/// Where the line that starts at `from` ends: at the next newline, or the end of the text.
pub open spec fn line_end(s: Seq<char>, from: int) -> int {
    match find_in(s, '\n', from, s.len() as int) {
        Some(i) => i,
        None => s.len() as int,
    }
}

/// The variables set by the lines of `s` from position `from` on, in order.
pub open spec fn entries_from(s: Seq<char>, from: int) -> Seq<(Seq<char>, Seq<char>)>
    decreases s.len() + 1 - from,
    via entries_from_decreases
{
    if from < 0 || from >= s.len() {
        Seq::empty()
    } else {
        let end = line_end(s, from);
        let rest = entries_from(s, end + 1);
        match entry_at(s, from, end) {
            Some(p) => seq![p] + rest,
            None => rest,
        }
    }
}

#[via_fn]
proof fn entries_from_decreases(s: Seq<char>, from: int) {
    lemma_find_in_bounds(s, '\n', from, s.len() as int);
    if 0 <= from < s.len() {
        assert(line_end(s, from) >= from);
        assert(0 <= s.len() + 1 - (line_end(s, from) + 1) < s.len() + 1 - from);
    }
}

/// The variables an environment file sets, line by line.
pub open spec fn env_file_entries(s: Seq<char>) -> Seq<(Seq<char>, Seq<char>)> {
    entries_from(s, 0)
}

/// `vs` with variable `k` set to `v`: every entry named `k` takes the value, or
/// the variable is added at the end if there is none.
pub open spec fn set_var(vs: Seq<(Seq<char>, Seq<char>)>, k: Seq<char>, v: Seq<char>) -> Seq<
    (Seq<char>, Seq<char>),
> {
    if exists|i: int| 0 <= i < vs.len() && #[trigger] vs[i].0 == k {
        vs.map_values(
            |p: (Seq<char>, Seq<char>)|
                if p.0 == k {
                    (k, v)
                } else {
                    p
                },
        )
    } else {
        vs.push((k, v))
    }
}

/// `vs` with each of `entries` set in turn, so a later entry wins.
pub open spec fn set_vars(vs: Seq<(Seq<char>, Seq<char>)>, entries: Seq<(Seq<char>, Seq<char>)>) -> Seq<
    (Seq<char>, Seq<char>),
>
    decreases entries.len(),
{
    if entries.len() == 0 {
        vs
    } else {
        set_vars(set_var(vs, entries[0].0, entries[0].1), entries.drop_first())
    }
}

/// The configuration once the environment file, whose text is `text`, is read:
/// where the configuration names such a file, the variables it sets join the
/// configuration's own, overriding those of the same name.
pub open spec fn resolved(m: ConfigModel, text: Seq<char>) -> ConfigModel {
    match m.env {
        Some(e) => match e.file {
            Some(_) => {
                let own = match e.vars {
                    Some(v) => v,
                    None => Seq::empty(),
                };
                ConfigModel {
                    env: Some(EnvModel { vars: Some(set_vars(own, env_file_entries(text))), ..e }),
                    ..m
                }
            },
            None => m,
        },
        None => m,
    }
}

/// The variables an environment file sets, in the order of its lines.
pub fn parse_env_file(text: &str) -> (r: Vec<(String, String)>)
    ensures
        pairs_view(r@) == env_file_entries(text@),
{
    let chars = chars_of(text);
    let ghost s = chars@;
    let n = chars.len();
    let mut out: Vec<(String, String)> = Vec::new();
    let mut from: usize = 0;
    proof {
        assert(pairs_view(out@) =~= Seq::<(Seq<char>, Seq<char>)>::empty());
        assert(entries_from(s, 0) =~= Seq::<(Seq<char>, Seq<char>)>::empty() + entries_from(s, 0));
    }
    while from < n
        invariant
            s == chars@,
            n == s.len(),
            from <= n,
            entries_from(s, 0) == pairs_view(out@) + entries_from(s, from as int),
        decreases n - from,
    {
        let end = match find_char(&chars, '\n', from, n) {
            Some(i) => i,
            None => n,
        };
        let ghost before = pairs_view(out@);
        let ghost rest = entries_from(s, end + 1);
        proof {
            assert(end as int == line_end(s, from as int));
        }
        let (a, b) = trim_bounds(&chars, from, end);
        if a < b {
            match find_char(&chars, '=', from, end) {
                Some(e) => {
                    let stop = match find_char(&chars, '=', e + 1, end) {
                        Some(f) => f,
                        None => end,
                    };
                    let (na, nb) = trim_bounds(&chars, from, e);
                    let (va, vb) = trim_bounds(&chars, e + 1, stop);
                    let name = substring(&chars, na, nb);
                    let value = substring(&chars, va, vb);
                    out.push((name, value));
                    proof {
                        assert(pairs_view(out@) =~= before.push(
                            (s.subrange(na as int, nb as int), s.subrange(va as int, vb as int)),
                        ));
                        assert(entries_from(s, from as int) == seq![
                            (s.subrange(na as int, nb as int), s.subrange(va as int, vb as int)),
                        ] + rest);
                        assert(pairs_view(out@) + rest =~= before + entries_from(s, from as int));
                    }
                },
                None => {
                    proof {
                        assert(entries_from(s, from as int) == rest);
                    }
                },
            }
        } else {
            proof {
                assert(entries_from(s, from as int) == rest);
            }
        }
        proof {
            if end + 1 > n {
                assert(entries_from(s, end + 1) =~= Seq::<(Seq<char>, Seq<char>)>::empty());
                assert(pairs_view(out@) + rest =~= pairs_view(out@));
            }
        }
        from = if end < n {
            end + 1
        } else {
            n
        };
        proof {
            if end == n {
                assert(entries_from(s, n as int) =~= Seq::<(Seq<char>, Seq<char>)>::empty());
            }
        }
    }
    proof {
        assert(entries_from(s, n as int) =~= Seq::<(Seq<char>, Seq<char>)>::empty());
        assert(pairs_view(out@) + Seq::<(Seq<char>, Seq<char>)>::empty() =~= pairs_view(out@));
    }
    out
}

fn set_var_in(vs: Vec<(String, String)>, k: &String, v: &String) -> (r: Vec<(String, String)>)
    ensures
        pairs_view(r@) == set_var(pairs_view(vs@), k@, v@),
{
    let ghost p = pairs_view(vs@);
    let ghost f = |q: (Seq<char>, Seq<char>)|
        if q.0 == k@ {
            (k@, v@)
        } else {
            q
        };
    let mut out: Vec<(String, String)> = Vec::new();
    let mut found = false;
    let mut i: usize = 0;
    while i < vs.len()
        invariant
            i <= vs@.len(),
            p == pairs_view(vs@),
            f == (|q: (Seq<char>, Seq<char>)|
                if q.0 == k@ {
                    (k@, v@)
                } else {
                    q
                }),
            pairs_view(out@) == p.take(i as int).map_values(f),
            found <==> exists|j: int| 0 <= j < i && #[trigger] p[j].0 == k@,
        decreases vs@.len() - i,
    {
        let ghost before = pairs_view(out@);
        proof {
            assert(p[i as int] == (vs@[i as int].0@, vs@[i as int].1@));
        }
        if vs[i].0 == *k {
            out.push((k.clone(), v.clone()));
            found = true;
            proof {
                assert(p[i as int].0 == k@);
                assert(f(p[i as int]) == (k@, v@));
            }
        } else {
            out.push((vs[i].0.clone(), vs[i].1.clone()));
            proof {
                assert(p[i as int].0 != k@);
                assert(f(p[i as int]) == p[i as int]);
            }
        }
        proof {
            let want = p.take(i + 1).map_values(f);
            assert(p.len() == vs@.len());
            assert(before.len() == i);
            assert(pairs_view(out@).len() == out@.len());
            assert(want.len() == i + 1);
            assert(pairs_view(out@).len() == want.len());
            assert forall|j: int| 0 <= j < want.len() implies pairs_view(out@)[j] == want[j] by {
                if j < i {
                    assert(pairs_view(out@)[j] == before[j]);
                    assert(before[j] == p.take(i as int).map_values(f)[j]);
                }
            }
            assert(pairs_view(out@) =~= want);
        }
        i = i + 1;
    }
    proof {
        assert(p.take(vs@.len() as int) =~= p);
    }
    if !found {
        let ghost before = pairs_view(out@);
        out.push((k.clone(), v.clone()));
        proof {
            assert(before =~= p);
            assert(pairs_view(out@) =~= p.push((k@, v@)));
        }
    }
    out
}

fn set_vars_in(vs: Vec<(String, String)>, entries: &Vec<(String, String)>) -> (r: Vec<
    (String, String),
>)
    ensures
        pairs_view(r@) == set_vars(pairs_view(vs@), pairs_view(entries@)),
{
    let ghost es = pairs_view(entries@);
    let ghost goal = set_vars(pairs_view(vs@), es);
    let mut cur = vs;
    let mut i: usize = 0;
    proof {
        assert(es.skip(0) =~= es);
    }
    while i < entries.len()
        invariant
            i <= entries@.len(),
            es == pairs_view(entries@),
            goal == set_vars(pairs_view(cur@), es.skip(i as int)),
        decreases entries@.len() - i,
    {
        proof {
            assert(es.skip(i as int)[0] == (entries@[i as int].0@, entries@[i as int].1@));
            assert(es.skip(i as int).drop_first() =~= es.skip(i + 1));
        }
        cur = set_var_in(cur, &entries[i].0, &entries[i].1);
        i = i + 1;
    }
    proof {
        assert(es.skip(entries@.len() as int) =~= Seq::<(Seq<char>, Seq<char>)>::empty());
    }
    cur
}

impl DmtConfig {
    /// Reads in the environment file, whose text the caller supplies: where the
    /// configuration names such a file, the variables it sets join the
    /// configuration's own, a later setting overriding an earlier one.
    pub fn resolve_env(&mut self, env_file_text: &str)
        ensures
            final(self).model() == resolved(old(self).model(), env_file_text@),
    {
        let env = self.env.take();
        let env = match env {
            Some(e) => {
                let EnvConfig { file, vars } = e;
                match file {
                    Some(f) => {
                        let own = match vars {
                            Some(v) => v,
                            None => {
                                let empty: Vec<(String, String)> = Vec::new();
                                proof {
                                    assert(pairs_view(empty@) =~= Seq::<
                                        (Seq<char>, Seq<char>),
                                    >::empty());
                                }
                                empty
                            },
                        };
                        let entries = parse_env_file(env_file_text);
                        let merged = set_vars_in(own, &entries);
                        Some(EnvConfig { file: Some(f), vars: Some(merged) })
                    },
                    None => Some(EnvConfig { file: None, vars }),
                }
            },
            None => None,
        };
        self.env = env;
    }
}

} // verus!
