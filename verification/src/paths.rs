//! Pure string logic on paths: splitting `src=dst` declarations and joining
//! destination roots with relative paths.

use vstd::prelude::*;

verus! {

/// True when `s` holds an equals sign.
pub open spec fn has_eq(s: Seq<char>) -> bool {
    exists|i: int| 0 <= i < s.len() && s[i] == '='
}

/// True when `i` is the index of the first equals sign in `s`.
pub open spec fn is_first_eq_at(s: Seq<char>, i: int) -> bool {
    &&& 0 <= i < s.len()
    &&& s[i] == '='
    &&& forall|j: int| 0 <= j < i ==> s[j] != '='
}

/// The index of the first equals sign in `s`; meaningful only when
/// `has_eq(s)` holds.
pub open spec fn first_eq(s: Seq<char>) -> int {
    choose|i: int| is_first_eq_at(s, i)
}

/// The first equals-sign index is unique, so any witness pins `first_eq`.
pub proof fn lemma_first_eq(s: Seq<char>, i: int)
    requires
        is_first_eq_at(s, i),
    ensures
        first_eq(s) == i,
{
    assert(is_first_eq_at(s, first_eq(s))) by {
        assert(exists|m: int| is_first_eq_at(s, m)) by {
            assert(is_first_eq_at(s, i));
        }
    }
    let k = first_eq(s);
    if k < i {
        assert(s[k] != '=');
    }
    if i < k {
        assert(s[i] != '=');
    }
}

/// The source half of a declaration: the text before the first equals sign.
pub open spec fn src_of(s: Seq<char>) -> Seq<char> {
    s.subrange(0, first_eq(s))
}

/// The destination half of a declaration: the text between the first equals
/// sign and the second one, or the end if there is no second one.
pub open spec fn dst_of(s: Seq<char>) -> Seq<char> {
    let rest = s.subrange(first_eq(s) + 1, s.len() as int);
    if has_eq(rest) {
        rest.subrange(0, first_eq(rest))
    } else {
        rest
    }
}

/// `root` and `rel` joined with a forward slash; an empty root joins to
/// `rel` alone, so destinations never start with a separator.
pub open spec fn joined(root: Seq<char>, rel: Seq<char>) -> Seq<char> {
    if root.len() == 0 {
        rel
    } else {
        root + seq!['/'] + rel
    }
}

/// `s` with every backslash replaced by a forward slash, so destinations
/// read the same on every host.
pub open spec fn normalized(s: Seq<char>) -> Seq<char> {
    s.map_values(|c: char| if c == '\\' { '/' } else { c })
}

/// Replaces every backslash with a forward slash.
pub fn normalize_seps(s: &str) -> (r: String)
    ensures
        r@ == normalized(s@),
{
    let n = s.unicode_len();
    let mut out = String::new();
    let mut i: usize = 0;
    while i < n
        invariant
            n == s@.len(),
            i <= n,
            out@ == normalized(s@.subrange(0, i as int)),
        decreases n - i,
    {
        if s.get_char(i) == '\\' {
            out.append("/");
            proof {
                reveal_strlit("/");
                assert(out@ =~= normalized(s@.subrange(0, i as int + 1)));
            }
        } else {
            let piece = s.substring_char(i, i + 1);
            out.append(piece);
            proof {
                assert(out@ =~= normalized(s@.subrange(0, i as int + 1)));
            }
        }
        i += 1;
    }
    proof {
        assert(s@.subrange(0, n as int) =~= s@);
    }
    out
}

/// The index of the first equals sign at or after `start`, if any.
fn find_eq_from(s: &str, start: usize) -> (r: Option<usize>)
    requires
        start <= s@.len(),
    ensures
        r matches Some(i) ==> start <= i < s@.len() && s@[i as int] == '='
            && (forall|j: int| start <= j < i ==> s@[j] != '='),
        r is None ==> forall|j: int| start <= j < s@.len() ==> s@[j] != '=',
{
    let n = s.unicode_len();
    let mut i: usize = start;
    while i < n
        invariant
            n == s@.len(),
            start <= i <= n,
            forall|j: int| start <= j < i ==> s@[j] != '=',
        decreases n - i,
    {
        if s.get_char(i) == '=' {
            return Some(i);
        }
        i += 1;
    }
    None
}

/// Accepts a declaration only in the shape the archive builder understands:
/// it must hold an equals sign and be at least three characters long.
pub fn check_add(var: &str) -> (r: Result<(), String>)
    ensures
        r is Ok <==> has_eq(var@) && var@.len() >= 3,
        r matches Err(m) ==> m@ == "Need <src=dst>. With src the source folder or path and dst where it should be in the vpk archive."@,
{
    let found = match find_eq_from(var, 0) {
        Some(i) => {
            proof {
                assert(has_eq(var@)) by {
                    assert(var@[i as int] == '=');
                }
            }
            true
        },
        None => false,
    };
    if found && var.unicode_len() >= 3 {
        Ok(())
    } else {
        Err(String::from_str("Need <src=dst>. With src the source folder or path and dst where it should be in the vpk archive."))
    }
}

/// Splits a `src=dst` declaration at its first equals sign: the source is the
/// text before it, the destination the text up to the next equals sign or the
/// end. The declaration must hold an equals sign, as the accepted shape
/// guarantees.
pub fn parse_add(arg_add: &str) -> (r: (String, String))
    requires
        has_eq(arg_add@),
    ensures
        r.0@ == src_of(arg_add@),
        r.1@ == dst_of(arg_add@),
{
    let n = arg_add.unicode_len();
    match find_eq_from(arg_add, 0) {
        None => {
            proof {
                let ghost w = choose|i: int| 0 <= i < arg_add@.len() && arg_add@[i] == '=';
                assert(arg_add@[w] != '=');
            }
            (String::new(), String::new())
        },
        Some(i) => {
            proof {
                lemma_first_eq(arg_add@, i as int);
            }
            let src = arg_add.substring_char(0, i);
            let j = match find_eq_from(arg_add, i + 1) {
                Some(j) => j,
                None => n,
            };
            let dst = arg_add.substring_char(i + 1, j);
            proof {
                let s = arg_add@;
                let rest = s.subrange(i + 1, s.len() as int);
                if j < n {
                    assert(is_first_eq_at(rest, j - i - 1)) by {
                        assert(rest[j - i - 1] == s[j as int]);
                        assert(forall|t: int| 0 <= t < j - i - 1 ==> rest[t] == s[t + i + 1] && s[t + i + 1] != '=');
                    }
                    assert(has_eq(rest)) by {
                        assert(rest[j - i - 1] == '=');
                    }
                    lemma_first_eq(rest, j - i - 1);
                    assert(rest.subrange(0, j - i - 1) =~= s.subrange(i + 1, j as int));
                } else {
                    assert(!has_eq(rest)) by {
                        assert(forall|t: int| 0 <= t < rest.len() ==> rest[t] == s[t + i + 1] && s[t + i + 1] != '=');
                    }
                    assert(rest =~= s.subrange(i + 1, n as int));
                }
            }
            (String::from_str(src), String::from_str(dst))
        },
    }
}

/// Joins a destination root and a relative path with a forward slash.
pub fn join_path(root: &str, rel: &str) -> (r: String)
    ensures
        r@ == joined(root@, rel@),
{
    if root.unicode_len() == 0 {
        String::from_str(rel)
    } else {
        let mut s = String::from_str(root);
        s.append("/");
        s.append(rel);
        proof {
            reveal_strlit("/");
            assert(s@ =~= root@ + seq!['/'] + rel@);
        }
        s
    }
}

} // verus!
