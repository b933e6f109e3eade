//! Which of the candidate source files a translation reads: each file once,
//! at its first mention, and none that could not be resolved.
use vstd::prelude::*;
use crate::text::{concat3, str_eq};

verus! {

/// Whether `k` occurs among the first `n` keys.
pub open spec fn seen_before(keys: Seq<Option<Seq<char>>>, n: int, k: Seq<char>) -> bool {
    exists|j: int| 0 <= j < n && #[trigger] keys[j] == Some(k)
}

/// The positions of the keys kept: those that are present and not seen at
/// an earlier position, in order.
pub open spec fn first_occurrences(keys: Seq<Option<Seq<char>>>) -> Seq<int>
    decreases keys.len(),
{
    if keys.len() == 0 {
        Seq::empty()
    } else {
        let n = keys.len() - 1;
        let r = first_occurrences(keys.drop_last());
        match keys[n] {
            Some(k) => if seen_before(keys, n, k) { r } else { r.push(n) },
            None => r,
        }
    }
}

/// The keys as texts.
pub open spec fn key_views(keys: Seq<Option<String>>) -> Seq<Option<Seq<char>>> {
    keys.map_values(|k: Option<String>| match k {
        Some(s) => Some(s@),
        None => None,
    })
}

/// The positions of the candidates to read, given the key of each (its
/// resolved name, `None` where it could not be resolved): each key once,
/// at its first position, in order.
pub fn unique_sources(keys: &Vec<Option<String>>) -> (r: Vec<usize>)
    ensures
        r@.map_values(|i: usize| i as int) == first_occurrences(key_views(keys@)),
{
    let ghost kv = key_views(keys@);
    let mut kept: Vec<usize> = Vec::new();
    let mut i: usize = 0;
    assert(kv.take(0) =~= Seq::<Option<Seq<char>>>::empty());
    assert(kept@.map_values(|x: usize| x as int) =~= Seq::<int>::empty());
    while i < keys.len()
        invariant
            i <= keys@.len(),
            kv == key_views(keys@),
            kv.len() == keys@.len(),
            kept@.map_values(|x: usize| x as int) == first_occurrences(kv.take(i as int)),
        decreases keys@.len() - i,
    {
        let ghost t = kv.take(i + 1);
        assert(t.drop_last() =~= kv.take(i as int));
        assert(t[i as int] == kv[i as int]);
        match &keys[i] {
            None => {},
            Some(k) => {
                let mut j: usize = 0;
                let mut dup = false;
                while j < i && !dup
                    invariant
                        j <= i < keys@.len(),
                        kv == key_views(keys@),
                        kv.len() == keys@.len(),
                        kv[i as int] == Some(k@),
                        dup ==> seen_before(t, i as int, k@),
                        !dup ==> forall|m: int| 0 <= m < j ==> kv[m] != Some(k@),
                        t == kv.take(i + 1),
                    decreases i - j + (if dup { 0int } else { 1int }),
                {
                    match &keys[j] {
                        Some(other) => {
                            if str_eq(other.as_str(), k.as_str()) {
                                assert(t[j as int] == Some(k@));
                                dup = true;
                            }
                        },
                        None => {},
                    }
                    if !dup {
                        j = j + 1;
                    }
                }
                if !dup {
                    assert(!seen_before(t, i as int, k@)) by {
                        assert forall|m: int| 0 <= m < i implies t[m] != Some(k@) by {
                            assert(t[m] == kv[m]);
                        }
                    }
                    let ghost before = kept@.map_values(|x: usize| x as int);
                    kept.push(i);
                    assert(kept@.map_values(|x: usize| x as int) =~= before.push(i as int));
                }
            },
        }
        i = i + 1;
    }
    assert(kv.take(keys@.len() as int) =~= kv);
    kept
}

/// The name of the output file when none is given: the input directory's
/// own name (the whole input where it has none), or `a` for a file input.
pub open spec fn default_name(input_is_dir: bool, file_name: Option<Seq<char>>, input: Seq<char>) -> Seq<char> {
    if input_is_dir {
        match file_name {
            Some(n) => n,
            None => input,
        }
    } else {
        "a"@
    }
}

/// The default output name for an input path, given whether it is a
/// directory and its last component.
pub fn default_filename(input_is_dir: bool, file_name: Option<&str>, input: &str) -> (r: String)
    ensures
        r@ == default_name(
            input_is_dir,
            match file_name {
                Some(n) => Some(n@),
                None => None,
            },
            input@,
        ),
{
    if input_is_dir {
        match file_name {
            Some(n) => String::from_str(n),
            None => String::from_str(input),
        }
    } else {
        String::from_str("a")
    }
}

/// Whether a path's extension (where it has one) is `vm`.
pub open spec fn is_vm(extension: Option<Seq<char>>) -> bool {
    extension == Some("vm"@)
}

/// Whether an extension is `vm`: which files of a directory are read.
pub fn has_vm_extension(extension: Option<&str>) -> (r: bool)
    ensures
        r == is_vm(
            match extension {
                Some(e) => Some(e@),
                None => None,
            },
        ),
{
    match extension {
        Some(e) => str_eq(e, "vm"),
        None => false,
    }
}

/// Accepts a file named on the command line whose extension is `vm`;
/// otherwise the message that names it.
pub open spec fn vm_input(path: Seq<char>, extension: Option<Seq<char>>) -> Result<Seq<char>, Seq<char>> {
    if is_vm(extension) {
        Ok(path)
    } else {
        Err("Error: '"@ + path + "' is not a .vm file"@)
    }
}

/// Checks a file named on the command line (`extension` is its
/// extension, where it has one).
pub fn validate_vm(path: &str, extension: Option<&str>) -> (r: Result<String, String>)
    ensures
        match r {
            Ok(p) => vm_input(
                path@,
                match extension {
                    Some(e) => Some(e@),
                    None => None,
                },
            ) == Ok::<Seq<char>, Seq<char>>(p@),
            Err(e) => vm_input(
                path@,
                match extension {
                    Some(e) => Some(e@),
                    None => None,
                },
            ) == Err::<Seq<char>, Seq<char>>(e@),
        },
{
    if has_vm_extension(extension) {
        Ok(String::from_str(path))
    } else {
        Err(concat3("Error: '", path, "' is not a .vm file"))
    }
}

} // verus!
