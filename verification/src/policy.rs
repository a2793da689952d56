//! Policy values: rules, metadata, and the blob format they are loaded from.
//!
//! A policy blob is a line-oriented byte string. Lines are separated by
//! `\n`; a trailing newline is optional. Each line is one of:
//!
//! - an empty line or a line starting with `#`: ignored;
//! - a line starting with `@`: the rest of the line names the policy
//!   (a later name line overrides an earlier one, the rest must be nonempty);
//! - a rule line `prefix kindcode label`, three fields separated by single
//!   spaces. `prefix` is a nonempty path prefix with no leading separator,
//!   `kindcode` is one byte: `-` for any kind, `f` regular, `d` directory,
//!   `l` symlink, `c` device, `p` fifo, `s` socket. `label` is the nonempty
//!   rest of the line.
//!
//! Anything else makes the blob unparsable.

use vstd::prelude::*;

use crate::errors::Error;
use crate::errors::ErrorSpec;

verus! {

/// Entry kind a rule can be keyed on, classified from mode bits.
#[derive(Clone, Copy, Debug, PartialEq, Eq, Structural)]
pub enum FileKind {
    Regular,
    Directory,
    Symlink,
    Device,
    Fifo,
    Socket,
}

/// One labeling rule: paths starting with `prefix`, of kind `kind`
/// (`None` means any kind), carry `label`.
#[derive(Debug)]
pub struct Rule {
    pub prefix: Vec<u8>,
    pub kind: Option<FileKind>,
    pub label: Vec<u8>,
}

/// Mathematical shape of a [`Rule`].
pub struct RuleModel {
    pub prefix: Seq<u8>,
    pub kind: Option<FileKind>,
    pub label: Seq<u8>,
}

impl View for Rule {
    type V = RuleModel;

    open spec fn view(&self) -> RuleModel {
        RuleModel { prefix: self.prefix@, kind: self.kind, label: self.label@ }
    }
}

/// Sentinel for a policy that is not backed by a root filesystem handle.
pub const NO_ROOTFS: i32 = -1;

/// A loaded policy: immutable rule set plus identifying metadata.
#[derive(Debug)]
pub struct Policy {
    pub name: Option<Vec<u8>>,
    pub origin_path: Option<Vec<u8>>,
    pub rootfs_descriptor: i32,
    pub csum: Option<u64>,
    pub rules: Vec<Rule>,
}

/// Mathematical shape of a [`Policy`].
pub struct PolicyModel {
    pub name: Option<Seq<u8>>,
    pub origin_path: Option<Seq<u8>>,
    pub rootfs_descriptor: int,
    pub csum: Option<u64>,
    pub rules: Seq<RuleModel>,
}

impl View for Policy {
    type V = PolicyModel;

    open spec fn view(&self) -> PolicyModel {
        PolicyModel {
            name: match self.name {
                Some(n) => Some(n@),
                None => None,
            },
            origin_path: match self.origin_path {
                Some(p) => Some(p@),
                None => None,
            },
            rootfs_descriptor: self.rootfs_descriptor as int,
            csum: self.csum,
            rules: self.rules@.map_values(|r: Rule| r@),
        }
    }
}

impl Policy {
    /// The policy's optional human-readable name.
    pub fn name(&self) -> (r: &Option<Vec<u8>>)
        ensures
            *r == self.name,
    {
        &self.name
    }

    /// The filesystem location the policy was loaded from, if any.
    pub fn origin_path(&self) -> (r: &Option<Vec<u8>>)
        ensures
            *r == self.origin_path,
    {
        &self.origin_path
    }

    /// The root-filesystem descriptor this policy governs, or [`NO_ROOTFS`].
    pub fn rootfs_descriptor(&self) -> (r: i32)
        ensures
            r == self.rootfs_descriptor,
    {
        self.rootfs_descriptor
    }

    /// The memoized digest of the policy blob this policy was loaded from.
    ///
    /// Computed once at load time; identical for policies loaded from
    /// byte-identical sources, whichever constructor produced them.
    pub fn checksum(&self) -> (r: Option<u64>)
        ensures
            r == self.csum,
    {
        self.csum
    }
}

/// Result of parsing a whole blob: the optional name and the rules in order.
pub struct ParsedModel {
    pub name: Option<Seq<u8>>,
    pub rules: Seq<RuleModel>,
}

/// Kind denoted by a rule line's kind code, or `None` for an invalid code.
pub open spec fn code_kind(c: u8) -> Option<Option<FileKind>> {
    if c == 45 {
        Some(None)
    } else if c == 102 {
        Some(Some(FileKind::Regular))
    } else if c == 100 {
        Some(Some(FileKind::Directory))
    } else if c == 108 {
        Some(Some(FileKind::Symlink))
    } else if c == 99 {
        Some(Some(FileKind::Device))
    } else if c == 112 {
        Some(Some(FileKind::Fifo))
    } else if c == 115 {
        Some(Some(FileKind::Socket))
    } else {
        None
    }
}

/// Index of the first space byte at or after `i`, or `s.len()` if none.
pub open spec fn first_space(s: Seq<u8>, i: int) -> int
    decreases s.len() - i,
{
    if i < 0 || i >= s.len() {
        s.len() as int
    } else if s[i] == 32 {
        i
    } else {
        first_space(s, i + 1)
    }
}

/// A prefix free of spaces, followed by a space or the end, pins
/// [`first_space`] down.
pub proof fn lemma_first_space(s: Seq<u8>, i: int, j: int)
    requires
        0 <= i <= j <= s.len(),
        forall|k: int| i <= k < j ==> s[k] != 32,
        j == s.len() || s[j] == 32,
    ensures
        first_space(s, i) == j,
    decreases j - i,
{
    if i < j {
        lemma_first_space(s, i + 1, j);
    }
}

/// What one line of the blob means.
pub enum LineModel {
    Blank,
    NameLine(Seq<u8>),
    RuleLine(RuleModel),
    Bad,
}

/// Parses one line (without its newline).
pub open spec fn parse_line_spec(line: Seq<u8>) -> LineModel {
    if line.len() == 0 {
        LineModel::Blank
    } else if line[0] == 35 {
        LineModel::Blank
    } else if line[0] == 64 {
        if line.len() > 1 {
            LineModel::NameLine(line.skip(1))
        } else {
            LineModel::Bad
        }
    } else {
        let sp = first_space(line, 0);
        if sp > 0 && sp + 3 < line.len() && line[sp + 2] == 32 && code_kind(line[sp + 1]) is Some {
            LineModel::RuleLine(
                RuleModel {
                    prefix: line.take(sp),
                    kind: code_kind(line[sp + 1])->0,
                    label: line.skip(sp + 3),
                },
            )
        } else {
            LineModel::Bad
        }
    }
}

/// Folds one line into the accumulated parse, or rejects the blob.
pub open spec fn apply_line_spec(acc: ParsedModel, line: Seq<u8>) -> Option<ParsedModel> {
    match parse_line_spec(line) {
        LineModel::Blank => Some(acc),
        LineModel::NameLine(n) => Some(ParsedModel { name: Some(n), rules: acc.rules }),
        LineModel::RuleLine(r) => Some(ParsedModel { name: acc.name, rules: acc.rules.push(r) }),
        LineModel::Bad => None,
    }
}

/// Parses the blob byte by byte: `cur` is the current line so far, `acc`
/// the lines folded so far.
pub open spec fn parse_rec(s: Seq<u8>, i: int, cur: Seq<u8>, acc: ParsedModel) -> Option<
    ParsedModel,
>
    decreases s.len() - i,
{
    if i < 0 || i >= s.len() {
        if cur.len() == 0 {
            Some(acc)
        } else {
            apply_line_spec(acc, cur)
        }
    } else if s[i] == 10 {
        match apply_line_spec(acc, cur) {
            Some(acc2) => parse_rec(s, i + 1, Seq::empty(), acc2),
            None => None,
        }
    } else {
        parse_rec(s, i + 1, cur.push(s[i]), acc)
    }
}

/// Parses a whole policy blob, or `None` if it is unparsable.
pub open spec fn parse_spec(s: Seq<u8>) -> Option<ParsedModel> {
    parse_rec(s, 0, Seq::empty(), ParsedModel { name: None, rules: Seq::empty() })
}

/// Exec shape of one parsed line.
pub enum ParsedLine {
    Blank,
    NameLine(Vec<u8>),
    RuleLine(Rule),
    Bad,
}

/// Relates an exec parsed line to its mathematical shape.
pub open spec fn parsed_line_view(p: ParsedLine) -> LineModel {
    match p {
        ParsedLine::Blank => LineModel::Blank,
        ParsedLine::NameLine(n) => LineModel::NameLine(n@),
        ParsedLine::RuleLine(r) => LineModel::RuleLine(r@),
        ParsedLine::Bad => LineModel::Bad,
    }
}

/// Classifies one byte as a kind code.
fn kind_of_code(c: u8) -> (r: Option<Option<FileKind>>)
    ensures
        r == code_kind(c),
{
    if c == 45 {
        Some(None)
    } else if c == 102 {
        Some(Some(FileKind::Regular))
    } else if c == 100 {
        Some(Some(FileKind::Directory))
    } else if c == 108 {
        Some(Some(FileKind::Symlink))
    } else if c == 99 {
        Some(Some(FileKind::Device))
    } else if c == 112 {
        Some(Some(FileKind::Fifo))
    } else if c == 115 {
        Some(Some(FileKind::Socket))
    } else {
        None
    }
}

/// Copies `line[from..to]` into a fresh vector.
fn copy_range(line: &Vec<u8>, from: usize, to: usize) -> (r: Vec<u8>)
    requires
        from <= to <= line.len(),
    ensures
        r@ == line@.subrange(from as int, to as int),
{
    let mut r: Vec<u8> = Vec::new();
    let mut i: usize = from;
    while i < to
        invariant
            from <= i <= to <= line.len(),
            r@ == line@.subrange(from as int, i as int),
        decreases to - i,
    {
        r.push(line[i]);
        proof {
            assert(line@.subrange(from as int, i + 1) =~= line@.subrange(
                from as int,
                i as int,
            ).push(line@[i as int]));
        }
        i += 1;
    }
    r
}

/// Parses one line of the blob.
fn parse_line(line: &Vec<u8>) -> (r: ParsedLine)
    ensures
        parsed_line_view(r) == parse_line_spec(line@),
{
    if line.len() == 0 {
        return ParsedLine::Blank;
    }
    let first = line[0];
    if first == 35 {
        return ParsedLine::Blank;
    }
    if first == 64 {
        if line.len() > 1 {
            let rest = copy_range(line, 1, line.len());
            proof {
                assert(line@.subrange(1, line@.len() as int) =~= line@.skip(1));
            }
            return ParsedLine::NameLine(rest);
        } else {
            return ParsedLine::Bad;
        }
    }
    // Find the first space.
    let mut sp: usize = 0;
    while sp < line.len() && line[sp] != 32
        invariant
            sp <= line.len(),
            forall|k: int| 0 <= k < sp ==> line@[k] != 32,
        decreases line.len() - sp,
    {
        sp += 1;
    }
    proof {
        lemma_first_space(line@, 0, sp as int);
    }
    if sp > 0 && sp < line.len() && line.len() - sp > 3 && line[sp + 2] == 32 {
        match kind_of_code(line[sp + 1]) {
            Some(kind) => {
                let prefix = copy_range(line, 0, sp);
                let label = copy_range(line, sp + 3, line.len());
                proof {
                    assert(line@.subrange(0, sp as int) =~= line@.take(sp as int));
                    assert(line@.subrange(sp + 3, line@.len() as int) =~= line@.skip(sp + 3));
                }
                ParsedLine::RuleLine(Rule { prefix, kind, label })
            },
            None => ParsedLine::Bad,
        }
    } else {
        ParsedLine::Bad
    }
}

/// Parses a policy blob into its optional name and its rules.
///
/// Returns `PolicyFormat` exactly when the blob is unparsable.
pub fn parse_policy(data: &Vec<u8>) -> (r: Result<(Option<Vec<u8>>, Vec<Rule>), Error>)
    ensures
        match r {
            Ok(p) => parse_spec(data@) == Some(
                ParsedModel {
                    name: match p.0 {
                        Some(n) => Some(n@),
                        None => None,
                    },
                    rules: p.1@.map_values(|x: Rule| x@),
                },
            ),
            Err(e) => e@ == ErrorSpec::PolicyFormat && parse_spec(data@) is None,
        },
{
    let mut name: Option<Vec<u8>> = None;
    let mut rules: Vec<Rule> = Vec::new();
    let mut cur: Vec<u8> = Vec::new();
    let mut i: usize = 0;
    proof {
        assert(rules@.map_values(|x: Rule| x@) =~= Seq::<RuleModel>::empty());
    }
    while i < data.len()
        invariant
            i <= data.len(),
            parse_spec(data@) == parse_rec(
                data@,
                i as int,
                cur@,
                ParsedModel {
                    name: match name {
                        Some(n) => Some(n@),
                        None => None,
                    },
                    rules: rules@.map_values(|x: Rule| x@),
                },
            ),
        decreases data.len() - i,
    {
        let b = data[i];
        if b == 10 {
            match parse_line(&cur) {
                ParsedLine::Blank => {},
                ParsedLine::NameLine(n) => {
                    name = Some(n);
                },
                ParsedLine::RuleLine(rl) => {
                    let ghost old_rules = rules@;
                    let ghost rv = rl@;
                    rules.push(rl);
                    proof {
                        assert(rules@.map_values(|x: Rule| x@) =~= old_rules.map_values(
                            |x: Rule| x@,
                        ).push(rv));
                    }
                },
                ParsedLine::Bad => {
                    return Err(Error::PolicyFormat);
                },
            }
            cur = Vec::new();
            proof {
                assert(cur@ =~= Seq::<u8>::empty());
            }
        } else {
            cur.push(b);
        }
        i += 1;
    }
    match parse_line(&cur) {
        ParsedLine::Blank => {
            proof {
                if cur@.len() != 0 {
                    assert(apply_line_spec(
                        ParsedModel {
                            name: match name {
                                Some(n) => Some(n@),
                                None => None,
                            },
                            rules: rules@.map_values(|x: Rule| x@),
                        },
                        cur@,
                    ) is Some);
                }
            }
            Ok((name, rules))
        },
        ParsedLine::NameLine(n) => Ok((Some(n), rules)),
        ParsedLine::RuleLine(rl) => {
            let ghost old_rules = rules@;
            let ghost rv = rl@;
            rules.push(rl);
            proof {
                assert(rules@.map_values(|x: Rule| x@) =~= old_rules.map_values(
                    |x: Rule| x@,
                ).push(rv));
            }
            Ok((name, rules))
        },
        ParsedLine::Bad => Err(Error::PolicyFormat),
    }
}

} // verus!
