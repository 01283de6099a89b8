//! Object-name normalization: splitting a possibly schema-qualified name into
//! its schema and table parts, and folding identifier case.

use vstd::prelude::*;
use crate::ast::{Ident, ObjectName};
use crate::catalog::{default_schema_name, spec_default_schema_name};
use crate::error::BindError;

verus! {

/// Case folding of one character: the ASCII letters `A`–`Z` map to their
/// lower-case forms and every other character — including accented letters —
/// is left unchanged. This library folds identifier case over ASCII only,
/// which keeps the folding provably idempotent.
pub open spec fn spec_lower_char(c: char) -> char {
    if 'A' <= c && c <= 'Z' {
        ((c as u8) + 0x20) as char
    } else {
        c
    }
}

/// Case folding of a character sequence, element by element.
pub open spec fn spec_lower(s: Seq<char>) -> Seq<char> {
    s.map_values(|c: char| spec_lower_char(c))
}

/// Case folding of each part of an object name.
pub open spec fn spec_lower_name(parts: Seq<Seq<char>>) -> Seq<Seq<char>> {
    parts.map_values(|p: Seq<char>| spec_lower(p))
}

/// The characters of each identifier of a sequence.
pub open spec fn spec_idents_view(s: Seq<Ident>) -> Seq<Seq<char>> {
    s.map_values(|id: Ident| id.value@)
}

/// The sequence of the parts of an object name, each taken as its characters.
pub open spec fn spec_name_parts(name: ObjectName) -> Seq<Seq<char>> {
    spec_idents_view(name.0@)
}

/// Folding one character twice is the same as folding it once.
pub proof fn lemma_lower_char_idempotent(c: char)
    ensures
        spec_lower_char(spec_lower_char(c)) == spec_lower_char(c),
{
}

/// Folding a character sequence twice is the same as folding it once.
pub proof fn lemma_lower_idempotent(s: Seq<char>)
    ensures
        spec_lower(spec_lower(s)) == spec_lower(s),
{
    assert(spec_lower(spec_lower(s)) =~= spec_lower(s)) by {
        assert forall|i: int| 0 <= i < s.len() implies spec_lower(spec_lower(s))[i] == spec_lower(
            s,
        )[i] by {
            lemma_lower_char_idempotent(s[i]);
        }
    }
}

/// Case folding of object names is idempotent: folding a name twice yields
/// the same name as folding it once.
pub proof fn lemma_lower_name_idempotent(parts: Seq<Seq<char>>)
    ensures
        spec_lower_name(spec_lower_name(parts)) == spec_lower_name(parts),
{
    assert(spec_lower_name(spec_lower_name(parts)) =~= spec_lower_name(parts)) by {
        assert forall|i: int| 0 <= i < parts.len() implies spec_lower_name(
            spec_lower_name(parts),
        )[i] == spec_lower_name(parts)[i] by {
            lemma_lower_idempotent(parts[i]);
        }
    }
}

/// Fold one string to lower case.
pub fn lower_str(s: &String) -> (r: String)
    ensures
        r@ == spec_lower(s@),
{
    let st: &str = s.as_str();
    let n = st.unicode_len();
    let mut out = String::new();
    let mut i: usize = 0;
    proof {
        assert(out@ =~= spec_lower(s@.take(0)));
    }
    while i < n
        invariant
            i <= n,
            n == s@.len(),
            st@ == s@,
            out@ == spec_lower(s@.take(i as int)),
        decreases n - i,
    {
        let c = st.get_char(i);
        let piece: &str = match c {
            'A' => "a",
            'B' => "b",
            'C' => "c",
            'D' => "d",
            'E' => "e",
            'F' => "f",
            'G' => "g",
            'H' => "h",
            'I' => "i",
            'J' => "j",
            'K' => "k",
            'L' => "l",
            'M' => "m",
            'N' => "n",
            'O' => "o",
            'P' => "p",
            'Q' => "q",
            'R' => "r",
            'S' => "s",
            'T' => "t",
            'U' => "u",
            'V' => "v",
            'W' => "w",
            'X' => "x",
            'Y' => "y",
            'Z' => "z",
            _ => st.substring_char(i, i + 1),
        };
        proof {
            reveal_strlit("a");
            reveal_strlit("b");
            reveal_strlit("c");
            reveal_strlit("d");
            reveal_strlit("e");
            reveal_strlit("f");
            reveal_strlit("g");
            reveal_strlit("h");
            reveal_strlit("i");
            reveal_strlit("j");
            reveal_strlit("k");
            reveal_strlit("l");
            reveal_strlit("m");
            reveal_strlit("n");
            reveal_strlit("o");
            reveal_strlit("p");
            reveal_strlit("q");
            reveal_strlit("r");
            reveal_strlit("s");
            reveal_strlit("t");
            reveal_strlit("u");
            reveal_strlit("v");
            reveal_strlit("w");
            reveal_strlit("x");
            reveal_strlit("y");
            reveal_strlit("z");
            assert(piece@ =~= seq![spec_lower_char(c)]);
            assert(spec_lower(s@.take(i + 1)) =~= spec_lower(s@.take(i as int)) + seq![
                spec_lower_char(s@[i as int]),
            ]);
        }
        out.append(piece);
        i += 1;
    }
    proof {
        assert(s@.take(n as int) =~= s@);
    }
    out
}

/// Convert an object name into lower case, folding every identifier part.
pub fn lower_case_name(name: &ObjectName) -> (r: ObjectName)
    ensures
        spec_name_parts(r) == spec_lower_name(spec_name_parts(*name)),
{
    let mut parts: Vec<Ident> = Vec::new();
    let mut i: usize = 0;
    while i < name.0.len()
        invariant
            i <= name.0.len(),
            parts@.len() == i,
            spec_idents_view(parts@) == spec_lower_name(spec_name_parts(*name).take(i as int)),
        decreases name.0.len() - i,
    {
        let ghost pre = parts@;
        let lowered = lower_str(&name.0[i].value);
        parts.push(Ident::new(lowered));
        proof {
            let goal = spec_lower_name(spec_name_parts(*name).take(i + 1));
            assert(parts@.len() == i + 1);
            assert forall|j: int| 0 <= j < parts@.len() implies spec_idents_view(parts@)[j]
                == goal[j] by {
                assert(spec_name_parts(*name)[j] == name.0@[j].value@);
                assert(goal[j] == spec_lower(spec_name_parts(*name).take(i + 1)[j]));
                if j < i {
                    assert(parts@[j] == pre[j]);
                    assert(spec_idents_view(pre)[j] == spec_lower_name(
                        spec_name_parts(*name).take(i as int),
                    )[j]);
                }
            }
            assert(spec_idents_view(parts@) =~= goal);
        }
        i += 1;
    }
    proof {
        assert(spec_name_parts(*name).take(name.0@.len() as int) =~= spec_name_parts(*name));
    }
    ObjectName(parts)
}

/// Split an object name into `(schema name, table name)`: a bare one-part
/// name falls into the default schema, a two-part name is taken as written,
/// and any longer name is rejected as over-qualified.
pub fn split_name(name: &ObjectName) -> (r: Result<(String, String), BindError>)
    ensures
        match r {
            Ok((schema, table)) => (name.0@.len() == 1 && schema@ == spec_default_schema_name()
                && table@ == name.0@[0].value@) || (name.0@.len() == 2 && schema@
                == name.0@[0].value@ && table@ == name.0@[1].value@),
            Err(e) => name.0@.len() != 1 && name.0@.len() != 2 && (e matches
                BindError::InvalidTableName(parts) && parts@ == name.0@),
        },
{
    if name.0.len() == 1 {
        Ok((default_schema_name(), name.0[0].value.clone()))
    } else if name.0.len() == 2 {
        Ok((name.0[0].value.clone(), name.0[1].value.clone()))
    } else {
        Err(BindError::InvalidTableName(crate::ast::clone_idents(&name.0)))
    }
}

} // verus!
