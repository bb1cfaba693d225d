//! Skills: instruction packs loaded from the skills directory, how their files are read,
//! and the registry that holds them.

use vstd::prelude::*;
use crate::text::{prefixed, chars_of, same_text, string_of};

verus! {

/// Why a skill could not be loaded.
#[derive(Debug)]
pub enum SkillError {
    FileNotFound(String),
    ParseError(String),
    LoadError(String),
}

/// The text that describes a skill error to the user.
pub open spec fn skill_error_text(e: SkillError) -> Seq<char> {
    match e {
        SkillError::FileNotFound(m) => "技能文件不存在: "@ + m@,
        SkillError::ParseError(m) => "技能解析失败: "@ + m@,
        SkillError::LoadError(m) => "技能加载失败: "@ + m@,
    }
}

impl SkillError {
    /// The text that describes this error to the user.
    pub fn message(&self) -> (m: String)
        ensures
            m@ == skill_error_text(*self),
    {
        match self {
            SkillError::FileNotFound(m) => prefixed("技能文件不存在: ", m.as_str()),
            SkillError::ParseError(m) => prefixed("技能解析失败: ", m.as_str()),
            SkillError::LoadError(m) => prefixed("技能加载失败: ", m.as_str()),
        }
    }
}

/// The manifest of a skill (`skill.json`, or the front matter of a
/// single-file skill).
#[derive(Debug)]
pub struct SkillManifest {
    pub name: String,
    pub description: String,
    pub version: String,
    pub author: String,
    pub allowed_tools: Vec<String>,
}

/// A loaded skill: its manifest and its instructions.
#[derive(Debug)]
pub struct Skill {
    pub manifest: SkillManifest,
    pub instructions: String,
}

/// Where skills are loaded from.
pub struct SkillLoader {
    skills_dir: std::path::PathBuf,
}

/// How an entry of the skills directory is read.
#[derive(Debug, PartialEq, Eq, Structural)]
pub enum SkillSource {
    /// A directory holding `skill.json` and, optionally, `SKILL.md`.
    Directory,
    /// A Markdown file whose front matter is the manifest.
    MarkdownFile,
}

/// The front matter of a Markdown text: when it starts with `---`, the text
/// after that up to the next `---`.
pub open spec fn front_matter(content: Seq<char>) -> Option<Seq<char>> {
    let dashes = seq!['-', '-', '-'];
    if content.len() >= 3 && content.take(3) == dashes {
        let rest = content.skip(3);
        if exists|i: int| 0 <= i && i + 3 <= rest.len() && #[trigger] rest.subrange(i, i + 3) == dashes {
            let end = choose|i: int|
                0 <= i && i + 3 <= rest.len() && #[trigger] rest.subrange(i, i + 3) == dashes && forall|j: int|
                    0 <= j < i ==> #[trigger] rest.subrange(j, j + 3) != dashes;
            Some(rest.take(end))
        } else {
            None
        }
    } else {
        None
    }
}

impl SkillLoader {
    /// A loader for the skills under `skills_dir`.
    pub fn new(skills_dir: std::path::PathBuf) -> (l: SkillLoader)
        ensures
            l.dir() == skills_dir,
    {
        SkillLoader { skills_dir }
    }

    /// The directory skills are loaded from.
    pub closed spec fn dir(&self) -> std::path::PathBuf {
        self.skills_dir
    }

    /// The directory skills are loaded from.
    pub fn skills_dir(&self) -> (d: &std::path::PathBuf)
        ensures
            *d == self.dir(),
    {
        &self.skills_dir
    }

    /// How an entry of the skills directory is read: a directory as a
    /// directory skill, a file with extension `md` as a single-file skill;
    /// any other entry is not a skill.
    pub fn entry_source(is_dir: bool, extension: Option<&str>) -> (r: Option<SkillSource>)
        ensures
            is_dir ==> r == Some(SkillSource::Directory),
            !is_dir ==> r == (match extension {
                Some(e) => if e@ == "md"@ { Some(SkillSource::MarkdownFile) } else { None },
                None => None,
            }),
    {
        if is_dir {
            Some(SkillSource::Directory)
        } else {
            match extension {
                Some(e) => if same_text(e, "md") { Some(SkillSource::MarkdownFile) } else { None },
                None => None,
            }
        }
    }

    /// The skill of a single Markdown file: its front matter, as parsed, is the
    /// manifest and the whole text the instructions; without a manifest the
    /// file is no skill.
    pub fn skill_from_file(content: String, manifest: Option<SkillManifest>) -> (r: Result<Skill, SkillError>)
        ensures
            match manifest {
                Some(m) => r == Ok::<Skill, SkillError>(Skill { manifest: m, instructions: content }),
                None => r matches Err(SkillError::ParseError(e)) && e@ == "Invalid skill format"@,
            },
    {
        match manifest {
            Some(m) => Ok(Skill { manifest: m, instructions: content }),
            None => Err(SkillError::ParseError("Invalid skill format".to_string())),
        }
    }

    /// The skill of a directory, from what was read of it: `manifest` is
    /// `None` when `skill.json` is missing, `instructions` is `None` when
    /// `SKILL.md` is missing (the instructions are then empty); a failure to
    /// read or parse either is passed on, the manifest's first.
    pub fn skill_from_dir(
        manifest: Option<Result<SkillManifest, SkillError>>,
        instructions: Option<Result<String, SkillError>>,
    ) -> (r: Result<Skill, SkillError>)
        ensures
            match manifest {
                None => r matches Err(SkillError::FileNotFound(e)) && e@ == "Missing skill.json"@,
                Some(Err(e)) => r == Err::<Skill, SkillError>(e),
                Some(Ok(m)) => match instructions {
                    None => r matches Ok(sk) && sk.manifest == m && sk.instructions@.len() == 0,
                    Some(Err(e)) => r == Err::<Skill, SkillError>(e),
                    Some(Ok(t)) => r == Ok::<Skill, SkillError>(Skill { manifest: m, instructions: t }),
                },
            },
    {
        let m = match manifest {
            None => {
                return Err(SkillError::FileNotFound("Missing skill.json".to_string()));
            },
            Some(Err(e)) => {
                return Err(e);
            },
            Some(Ok(m)) => m,
        };
        let instructions = match instructions {
            None => String::new(),
            Some(Err(e)) => {
                return Err(e);
            },
            Some(Ok(t)) => t,
        };
        Ok(Skill { manifest: m, instructions })
    }

    /// The front matter of a Markdown skill file (see `front_matter`).
    pub fn frontmatter_block(content: &str) -> (r: Option<String>)
        ensures
            match r {
                Some(s) => front_matter(content@) == Some(s@),
                None => front_matter(content@) is None,
            },
    {
        let cs = chars_of(content);
        let n = cs.len();
        let ghost dashes = seq!['-', '-', '-'];
        if n < 3 || cs[0] != '-' || cs[1] != '-' || cs[2] != '-' {
            proof {
                if n >= 3 {
                    assert(cs@.take(3) != dashes) by {
                        assert(cs@.take(3)[0] == cs@[0]);
                        assert(cs@.take(3)[1] == cs@[1]);
                        assert(cs@.take(3)[2] == cs@[2]);
                    }
                }
            }
            return None;
        }
        assert(cs@.take(3) =~= dashes);
        let ghost rest = cs@.skip(3);
        let mut i: usize = 3;
        while i <= n - 3
            invariant
                n == cs@.len(),
                n >= 3,
                rest == cs@.skip(3),
                dashes == seq!['-', '-', '-'],
                cs@ == content@,
                cs@.take(3) == dashes,
                3 <= i <= n,
                forall|j: int| 0 <= j < i - 3 && j + 3 <= rest.len() ==> #[trigger] rest.subrange(j, j + 3) != dashes,
            decreases n - i,
        {
            if cs[i] == '-' && cs[i + 1] == '-' && cs[i + 2] == '-' {
                proof {
                    let k = (i - 3) as int;
                    let w = rest.subrange(k, k + 3);
                    assert(rest[k] == cs@[i as int]);
                    assert(rest[k + 1] == cs@[i + 1]);
                    assert(rest[k + 2] == cs@[i + 2]);
                    assert(dashes[0] == '-' && dashes[1] == '-' && dashes[2] == '-' && dashes.len() == 3);
                    assert(w.len() == 3);
                    assert(w[0] == cs@[i as int]);
                    assert(w[1] == cs@[i + 1]);
                    assert(w[2] == cs@[i + 2]);
                    assert(w =~= dashes);
                    assert(forall|j: int| 0 <= j < k ==> #[trigger] rest.subrange(j, j + 3) != dashes);
                    assert(0 <= k && k + 3 <= rest.len() && rest.subrange(k, k + 3) == dashes);
                    let end = choose|e: int|
                        0 <= e && e + 3 <= rest.len() && #[trigger] rest.subrange(e, e + 3) == dashes && forall|j: int|
                            0 <= j < e ==> #[trigger] rest.subrange(j, j + 3) != dashes;
                    assert(end == k) by {
                        if end < k {
                            assert(rest.subrange(end, end + 3) != dashes);
                        } else if end > k {
                            assert(rest.subrange(k, k + 3) != dashes);
                        }
                    }
                    assert(rest.take(k) =~= cs@.subrange(3, i as int));
                }
                return Some(string_of(&cs, 3, i));
            }
            proof {
                let k = (i - 3) as int;
                assert(rest.subrange(k, k + 3) != dashes) by {
                    assert(rest[k] == cs@[i as int]);
                    assert(rest[k + 1] == cs@[i + 1]);
                    assert(rest[k + 2] == cs@[i + 2]);
                    assert(dashes[0] == '-' && dashes[1] == '-' && dashes[2] == '-');
                    if cs[i as int] != '-' {
                        assert(rest.subrange(k, k + 3)[0] == cs@[i as int]);
                    } else if cs[i + 1] != '-' {
                        assert(rest.subrange(k, k + 3)[1] == cs@[i + 1]);
                    } else {
                        assert(rest.subrange(k, k + 3)[2] == cs@[i + 2]);
                    }
                }
            }
            i = i + 1;
        }
        None
    }
}


/// Whether no skill of `s` before index `k` is called `name`.
pub open spec fn none_named_before(s: Seq<Skill>, name: Seq<char>, k: int) -> bool {
    forall|j: int| 0 <= j < k ==> (#[trigger] s[j]).manifest.name@ != name
}

/// The loaded skills, in the order in which they were added.
pub struct SkillRegistry {
    skills: Vec<Skill>,
}

impl View for SkillRegistry {
    type V = Seq<Skill>;

    closed spec fn view(&self) -> Seq<Skill> {
        self.skills@
    }
}

impl SkillRegistry {
    /// An empty registry.
    pub fn new() -> (r: SkillRegistry)
        ensures
            r@ == Seq::<Skill>::empty(),
    {
        SkillRegistry { skills: Vec::new() }
    }

    /// Adds a skill after the others.
    pub fn add(&mut self, skill: Skill)
        ensures
            final(self)@ == old(self)@.push(skill),
    {
        self.skills.push(skill);
    }

    /// The first skill added under `name`, if any.
    pub fn get(&self, name: &str) -> (r: Option<&Skill>)
        ensures
            match r {
                Some(sk) => exists|i: int|
                    0 <= i < self@.len() && self@[i] == *sk && sk.manifest.name@ == name@ && none_named_before(self@, name@, i),
                None => none_named_before(self@, name@, self@.len() as int),
            },
    {
        let n = self.skills.len();
        let mut i: usize = 0;
        while i < n
            invariant
                n == self.skills@.len(),
                i <= n,
                none_named_before(self.skills@, name@, i as int),
            decreases n - i,
        {
            if same_text(self.skills[i].manifest.name.as_str(), name) {
                let sk = &self.skills[i];
                assert(self@[i as int] == *sk);
                return Some(sk);
            }
            i = i + 1;
        }
        None
    }

    /// The name and description of each skill, in order.
    pub fn list(&self) -> (r: Vec<(&str, &str)>)
        ensures
            r@.len() == self@.len(),
            forall|i: int| 0 <= i < r@.len() ==> (#[trigger] r@[i]).0@ == self@[i].manifest.name@
                && r@[i].1@ == self@[i].manifest.description@,
    {
        let mut r: Vec<(&str, &str)> = Vec::new();
        let mut i: usize = 0;
        while i < self.skills.len()
            invariant
                i <= self.skills@.len(),
                r@.len() == i,
                forall|k: int| 0 <= k < i ==> (#[trigger] r@[k]).0@ == self.skills@[k].manifest.name@
                    && r@[k].1@ == self.skills@[k].manifest.description@,
            decreases self.skills@.len() - i,
        {
            let sk = &self.skills[i];
            r.push((sk.manifest.name.as_str(), sk.manifest.description.as_str()));
            i = i + 1;
        }
        r
    }

    /// The number of skills.
    pub fn len(&self) -> (n: usize)
        ensures
            n == self@.len(),
    {
        self.skills.len()
    }

    /// Whether there is no skill.
    pub fn is_empty(&self) -> (b: bool)
        ensures
            b == (self@.len() == 0),
    {
        self.skills.len() == 0
    }
}

impl Default for SkillRegistry {
    fn default() -> (r: Self)
        ensures
            r@ == Seq::<Skill>::empty(),
    {
        Self::new()
    }
}

} // verus!
