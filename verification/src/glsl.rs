use vstd::prelude::*;

verus! {

/// One `#include` directive in a shader source, by byte offsets: where the
/// directive stands, and where the name of the included file stands, with the
/// angle brackets or the quotes around it.
#[derive(Clone, Copy, Debug, PartialEq, Eq, Structural)]
pub struct Directive {
    pub start: usize,
    pub end: usize,
    pub name_start: usize,
    pub name_end: usize,
}

/// The file that a directive includes: its path as written, and whether it is
/// looked up under the root of the sources, as a name in angle brackets is, or
/// beside the including file, as a name in quotes is.
#[derive(Clone, Debug, PartialEq, Eq)]
pub struct Include {
    pub from_root: bool,
    pub path: Vec<u8>,
}

/// One match of a pattern in a text, by byte offsets: where the match stands, and
/// where its first group stands, if the pattern has one and it took part.
#[derive(Clone, Copy, Debug, PartialEq, Eq)]
pub struct Found {
    pub start: usize,
    pub end: usize,
    pub group: Option<(usize, usize)>,
}

/// The pattern of an `#include` directive: the word, white space if any, and the
/// shortest name in angle brackets or in quotes.
pub const INCLUDE_PATTERN: &'static str = r#"#include\s*(<.+?>|".+?")"#;

/// The successive matches of the regular expression `pattern` in `source`, each
/// with its first group; nothing where `pattern` is no regular expression.
pub uninterp spec fn pattern_matches(pattern: Seq<char>, source: Seq<u8>) -> Option<Seq<Found>>;

/// `regex::bytes::Regex::new` and `regex::bytes::Regex::captures_iter`: the
/// successive matches of `pattern` in `source` that do not overlap, each with the
/// offsets of the match and of its first group, or nothing where the crate
/// refuses the pattern. The result is taken as the crate gives it and nothing
/// more is claimed of it; [`directives_of`] tests what the library relies on.
#[verifier::external_body]
fn find_matches(pattern: &str, source: &[u8]) -> (found: Option<Vec<Found>>)
    ensures
        pattern_matches(pattern@, source@) == match found {
            Some(found) => Some(found@),
            None => None,
        },
{
    let pattern = regex::bytes::Regex::new(pattern).ok()?;
    let mut found = Vec::new();
    for captures in pattern.captures_iter(source) {
        let whole = captures.get(0).unwrap();
        let group = captures.get(1).map(|group| (group.start(), group.end()));
        found.push(Found { start: whole.start(), end: whole.end(), group });
    }
    Some(found)
}

/// The directives that the matches stand for: each match with its group as the
/// name; nothing where a match has no group.
pub open spec fn directives_from(matches: Seq<Found>, count: nat) -> Option<Seq<Directive>>
    decreases count,
{
    if count == 0 {
        Some(Seq::empty())
    } else {
        match (directives_from(matches, (count - 1) as nat), matches[count - 1].group) {
            (Some(before), Some((name_start, name_end))) => Some(
                before.push(
                    Directive {
                        start: matches[count - 1].start,
                        end: matches[count - 1].end,
                        name_start,
                        name_end,
                    },
                ),
            ),
            _ => None,
        }
    }
}

/// Once nothing, always nothing: a match without a group spoils all.
pub proof fn lemma_directives_from_stay_none(matches: Seq<Found>, failed: nat, count: nat)
    requires
        failed <= count,
        directives_from(matches, failed) is None,
    ensures
        directives_from(matches, count) is None,
    decreases count,
{
    if failed < count {
        lemma_directives_from_stay_none(matches, failed, (count - 1) as nat);
    }
}

/// The directives that the matches stand for; see [`directives_from`].
pub fn directives_of(matches: &Vec<Found>) -> (directives: Option<Vec<Directive>>)
    ensures
        directives_from(matches@, matches@.len()) == match directives {
            Some(directives) => Some(directives@),
            None => None,
        },
{
    let mut directives: Vec<Directive> = Vec::new();
    let mut i: usize = 0;
    while i < matches.len()
        invariant
            i <= matches.len(),
            directives_from(matches@, i as nat) == Some(directives@),
        decreases matches.len() - i,
    {
        let found = matches[i];
        match found.group {
            Some((name_start, name_end)) => {
                directives.push(
                    Directive { start: found.start, end: found.end, name_start, name_end },
                );
            },
            None => {
                proof {
                    assert(directives_from(matches@, (i + 1) as nat) is None);
                    lemma_directives_from_stay_none(matches@, (i + 1) as nat, matches@.len());
                }
                return None;
            },
        }
        i += 1;
    }
    Some(directives)
}

/// The `#include` directives of `source`, in their order, where the matches of
/// the pattern lie in the source as directives do; see [`well_formed`].
pub open spec fn include_directives(source: Seq<u8>) -> Option<Seq<Directive>> {
    match pattern_matches(INCLUDE_PATTERN@, source) {
        Some(matches) => match directives_from(matches, matches.len()) {
            Some(directives) => if well_formed(source.len(), directives) {
                Some(directives)
            } else {
                None
            },
            None => None,
        },
        None => None,
    }
}

/// The `#include` directives of `source`; see [`include_directives`].
pub fn find_directives(source: &[u8]) -> (directives: Option<Vec<Directive>>)
    ensures
        include_directives(source@) == match directives {
            Some(directives) => Some(directives@),
            None => None,
        },
{
    let matches = match find_matches(INCLUDE_PATTERN, source) {
        Some(matches) => matches,
        None => {
            return None;
        },
    };
    let directives = match directives_of(&matches) {
        Some(directives) => directives,
        None => {
            return None;
        },
    };
    if check_directives(source.len(), &directives) {
        Some(directives)
    } else {
        None
    }
}

/// Whether the directives lie in a source of `length` bytes one after the
/// other, each with a name of at least its two delimiters inside it.
pub open spec fn well_formed(length: nat, directives: Seq<Directive>) -> bool {
    forall|i: int|
        0 <= i < directives.len() ==> {
            let directive = #[trigger] directives[i];
            &&& directive.start <= directive.name_start
            &&& directive.name_start + 2 <= directive.name_end
            &&& directive.name_end <= directive.end
            &&& directive.end <= length
            &&& i > 0 ==> directives[i - 1].end <= directive.start
        }
}

/// Whether the directives lie in a source of `length` bytes as directives do;
/// see [`well_formed`].
pub fn check_directives(length: usize, directives: &Vec<Directive>) -> (fine: bool)
    ensures
        fine == well_formed(length as nat, directives@),
{
    let mut i: usize = 0;
    while i < directives.len()
        invariant
            i <= directives.len(),
            well_formed(length as nat, directives@.take(i as int)),
        decreases directives.len() - i,
    {
        let directive = directives[i];
        let inside = directive.start <= directive.name_start && directive.name_start
            <= directive.name_end && directive.name_end - directive.name_start >= 2
            && directive.name_end <= directive.end && directive.end <= length;
        let after = i == 0 || directives[i - 1].end <= directive.start;
        if !(inside && after) {
            proof {
                if well_formed(length as nat, directives@) {
                    assert(directives@[i as int] == directive);
                }
            }
            return false;
        }
        proof {
            assert forall|k: int| 0 <= k < i + 1 implies {
                let d = #[trigger] directives@.take(i + 1)[k];
                &&& d.start <= d.name_start
                &&& d.name_start + 2 <= d.name_end
                &&& d.name_end <= d.end
                &&& d.end <= length
                &&& k > 0 ==> directives@.take(i + 1)[k - 1].end <= d.start
            } by {
                if k < i {
                    assert(directives@.take(i as int)[k] == directives@.take(i + 1)[k]);
                    if k > 0 {
                        assert(directives@.take(i as int)[k - 1] == directives@.take(i + 1)[k - 1]);
                    }
                }
            }
        }
        i += 1;
    }
    proof {
        assert(directives@.take(directives.len() as int) =~= directives@);
    }
    true
}

/// The path that `directive` names: the name without its delimiters.
pub open spec fn path_of(source: Seq<u8>, directive: Directive) -> Seq<u8> {
    source.subrange(directive.name_start + 1, directive.name_end - 1)
}

/// Whether `directive` names a file under the root of the sources: its name
/// stands in angle brackets.
pub open spec fn from_root(source: Seq<u8>, directive: Directive) -> bool {
    source[directive.name_start as int] == 60u8
}

/// The bytes of `source` from `from` up to `to`, appended to `output`.
fn copy_range(output: &mut Vec<u8>, source: &[u8], from: usize, to: usize)
    requires
        from <= to <= source@.len(),
    ensures
        final(output)@ == old(output)@ + source@.subrange(from as int, to as int),
{
    let mut i: usize = from;
    proof {
        assert(output@ =~= old(output)@ + source@.subrange(from as int, from as int));
    }
    while i < to
        invariant
            from <= i <= to,
            to <= source@.len(),
            output@ == old(output)@ + source@.subrange(from as int, i as int),
        decreases to - i,
    {
        output.push(source[i]);
        proof {
            assert(source@.subrange(from as int, i + 1) =~= source@.subrange(
                from as int,
                i as int,
            ).push(source@[i as int]));
        }
        i += 1;
    }
}

/// The files that the directives of a source include, in the order of the
/// directives.
pub fn includes_of(source: &[u8], directives: &Vec<Directive>) -> (includes: Vec<Include>)
    requires
        well_formed(source@.len(), directives@),
    ensures
        includes@.len() == directives@.len(),
        forall|i: int|
            0 <= i < includes@.len() ==> (#[trigger] includes@[i]).from_root == from_root(
                source@,
                directives@[i],
            ) && includes@[i].path@ == path_of(source@, directives@[i]),
{
    let mut includes: Vec<Include> = Vec::new();
    let mut i: usize = 0;
    while i < directives.len()
        invariant
            i <= directives.len(),
            well_formed(source@.len(), directives@),
            includes@.len() == i,
            forall|k: int|
                0 <= k < i ==> (#[trigger] includes@[k]).from_root == from_root(
                    source@,
                    directives@[k],
                ) && includes@[k].path@ == path_of(source@, directives@[k]),
        decreases directives.len() - i,
    {
        let directive = directives[i];
        proof {
            assert(directives@[i as int] == directive);
        }
        let mut path: Vec<u8> = Vec::new();
        copy_range(&mut path, source, directive.name_start + 1, directive.name_end - 1);
        proof {
            assert(path@ =~= path_of(source@, directive));
        }
        includes.push(Include { from_root: source[directive.name_start] == 60u8, path });
        i += 1;
    }
    includes
}

/// What the texts are as sequences of bytes.
pub open spec fn texts(replacements: Seq<Vec<u8>>) -> Seq<Seq<u8>> {
    Seq::new(replacements.len(), |i: int| replacements[i]@)
}

/// The source up to the end of directive `count`, with each of the first
/// `count` directives replaced by its text.
pub open spec fn spliced(
    source: Seq<u8>,
    directives: Seq<Directive>,
    replacements: Seq<Seq<u8>>,
    count: nat,
) -> Seq<u8>
    decreases count,
{
    if count == 0 {
        Seq::empty()
    } else {
        let from = if count == 1 {
            0
        } else {
            directives[count - 2].end as int
        };
        spliced(source, directives, replacements, (count - 1) as nat) + source.subrange(
            from,
            directives[count - 1].start as int,
        ) + replacements[count - 1]
    }
}

/// The source with each directive replaced by its text: what stands between
/// the directives stays.
pub open spec fn expanded(
    source: Seq<u8>,
    directives: Seq<Directive>,
    replacements: Seq<Seq<u8>>,
) -> Seq<u8> {
    let from = if directives.len() == 0 {
        0
    } else {
        directives.last().end as int
    };
    spliced(source, directives, replacements, directives.len()) + source.subrange(
        from,
        source.len() as int,
    )
}

/// The source with each directive replaced by its text.
pub fn splice(source: &[u8], directives: &Vec<Directive>, replacements: &Vec<Vec<u8>>) -> (output:
    Vec<u8>)
    requires
        well_formed(source@.len(), directives@),
        replacements@.len() == directives@.len(),
    ensures
        output@ == expanded(source@, directives@, texts(replacements@)),
{
    let mut output: Vec<u8> = Vec::new();
    let mut from: usize = 0;
    let mut i: usize = 0;
    while i < directives.len()
        invariant
            i <= directives.len(),
            well_formed(source@.len(), directives@),
            replacements@.len() == directives@.len(),
            from == if i == 0 {
                0
            } else {
                directives@[i - 1].end as int
            },
            from <= source@.len(),
            output@ == spliced(source@, directives@, texts(replacements@), i as nat),
        decreases directives.len() - i,
    {
        let directive = directives[i];
        proof {
            assert(directives@[i as int] == directive);
        }
        copy_range(&mut output, source, from, directive.start);
        let text = &replacements[i];
        copy_range(&mut output, text.as_slice(), 0, text.len());
        proof {
            assert(text@.subrange(0, text@.len() as int) =~= text@);
            assert(texts(replacements@)[i as int] == text@);
        }
        from = directive.end;
        i += 1;
    }
    copy_range(&mut output, source, from, source.len());
    output
}

/// The files that `source` includes, in the order of its `#include`
/// directives; nothing where the directives cannot be told, see
/// [`include_directives`].
pub fn includes(source: &[u8]) -> (found: Option<Vec<Include>>)
    ensures
        match (found, include_directives(source@)) {
            (Some(includes), Some(directives)) => {
                &&& includes@.len() == directives.len()
                &&& forall|i: int|
                    0 <= i < includes@.len() ==> (#[trigger] includes@[i]).from_root == from_root(
                        source@,
                        directives[i],
                    ) && includes@[i].path@ == path_of(source@, directives[i])
            },
            (None, None) => true,
            _ => false,
        },
{
    match find_directives(source) {
        Some(directives) => Some(includes_of(source, &directives)),
        None => None,
    }
}

/// The source with each of its `#include` directives replaced by the text
/// given for it, in the order of the directives; nothing where there are not as
/// many texts as directives, or where the directives cannot be told, see
/// [`include_directives`].
pub fn expand(source: &[u8], replacements: &Vec<Vec<u8>>) -> (output: Option<Vec<u8>>)
    ensures
        match (output, include_directives(source@)) {
            (Some(output), Some(directives)) => replacements@.len() == directives.len()
                && output@ == expanded(source@, directives, texts(replacements@)),
            (None, Some(directives)) => replacements@.len() != directives.len(),
            (None, None) => true,
            _ => false,
        },
{
    match find_directives(source) {
        Some(directives) => if replacements.len() == directives.len() {
            Some(splice(source, &directives, replacements))
        } else {
            None
        },
        None => None,
    }
}

} // verus!
