//! Where results are kept between two runs, and for how long they count.

use crate::api::slashless;
use crate::render::{decimal, number};
use crate::text::{begins, replace, replaced, starts_with, Text};
use vstd::prelude::*;

verus! {

/// For how many hours vulnerabilities and provenance count.
pub const MAX_AGE_HOURS: u64 = 6;

// ── Paths ────────────────────────────────────────────────────────────

/// The path `b` seen from the directory `a`: an absolute path as it is.
pub open spec fn joined_path(a: Text, b: Text) -> Text {
    if begins(b, "/"@) {
        b
    } else if a.len() == 0 || a.last() == '/' {
        a + b
    } else {
        a + "/"@ + b
    }
}

/// The path `b` seen from the directory `a`: an absolute path as it is.
pub fn join_path(a: &str, b: &str) -> (r: String)
    ensures
        r@ == joined_path(a@, b@),
{
    if starts_with(b, "/") {
        return b.to_owned();
    }
    let n = a.unicode_len();
    let mut path = a.to_owned();
    if n > 0 && a.get_char(n - 1) != '/' {
        path.append("/");
    }
    path.append(b);
    path
}

/// The directory in which results are kept: below the directory for caches,
/// else below the home directory, else below `/tmp`.
pub open spec fn base_dir(xdg_cache_home: Option<Text>, home: Option<Text>) -> Text {
    let caches = match (xdg_cache_home, home) {
        (Some(dir), _) => dir,
        (None, Some(h)) => joined_path(h, ".cache"@),
        (None, None) => "/tmp"@,
    };
    joined_path(caches, "gravedigger"@)
}

/// The name of the file for a key, without its extension: no slashes.
pub open spec fn safe_key(key: Text) -> Text {
    replaced(key, '/', "_"@)
}

/// The file for a key of a category.
pub open spec fn entry_path(base: Text, category: Text, key: Text) -> Text {
    joined_path(joined_path(base, category), safe_key(key) + ".json"@)
}

/// The file that is written before it takes the place of the file for a key
/// of a category: one for each process.
pub open spec fn temporary_path(base: Text, category: Text, key: Text, pid: u32) -> Text {
    joined_path(
        joined_path(base, category),
        (if key.len() == 0 {
            ".json"@
        } else {
            safe_key(key)
        }) + ".tmp."@ + decimal(pid as nat),
    )
}

// ── The cache ────────────────────────────────────────────────────────

/// Where results are kept.
#[derive(Debug)]
pub struct Cache {
    pub base: String,
}

/// How a result is kept: the directory that must be there, the file that is
/// written, and the file whose place it takes.
#[derive(Debug)]
pub struct CacheWrite {
    pub dir: String,
    pub temporary: String,
    pub path: String,
}

/// Where results are kept, by the environment variables `XDG_CACHE_HOME` and
/// `HOME`.
pub fn init(xdg_cache_home: Option<String>, home: Option<String>) -> (r: Cache)
    ensures
        r.base@ == base_dir(xdg_cache_home.deep_view(), home.deep_view()),
{
    let caches = match xdg_cache_home {
        Some(dir) => dir,
        None => match home {
            Some(h) => join_path(h.as_str(), ".cache"),
            None => "/tmp".to_owned(),
        },
    };
    Cache { base: join_path(caches.as_str(), "gravedigger") }
}

/// A result counts as long as it is no older than so many hours.
pub open spec fn fresh(age_secs: u64, max_age_hours: u64) -> bool {
    age_secs <= max_age_hours * 3600
}

impl Cache {
    /// The file for a key of a category.
    pub fn path(&self, category: &str, key: &str) -> (r: String)
        ensures
            r@ == entry_path(self.base@, category@, key@),
    {
        let mut name = replace(key, '/', "_");
        name.append(".json");
        join_path(join_path(self.base.as_str(), category).as_str(), name.as_str())
    }

    /// A kept result if it exists and is not older than `max_age_hours`: `age`
    /// is how many seconds ago the file was written, where that is known, and
    /// `content` what it holds, where it could be read.
    pub fn get(
        &self,
        age: Option<u64>,
        content: Option<String>,
        max_age_hours: u64,
    ) -> (r: Option<String>)
        requires
            max_age_hours * 3600 <= u64::MAX,
        ensures
            r.deep_view() == if age is Some && fresh(age->0, max_age_hours) {
                content.deep_view()
            } else {
                None
            },
    {
        match age {
            Some(secs) => if secs > max_age_hours * 3600 {
                None
            } else {
                content
            },
            None => None,
        }
    }

    /// How a result is kept by the process `pid`: written to a file of its
    /// own, which is then renamed.
    pub fn set(&self, category: &str, key: &str, pid: u32) -> (r: CacheWrite)
        ensures
            r.dir@ == joined_path(self.base@, category@),
            r.temporary@ == temporary_path(self.base@, category@, key@, pid),
            r.path@ == entry_path(self.base@, category@, key@),
    {
        let dir = join_path(self.base.as_str(), category);
        let mut name = if key.is_empty() {
            ".json".to_owned()
        } else {
            replace(key, '/', "_")
        };
        name.append(".tmp.");
        name.append(number(pid as u64).as_str());
        let temporary = join_path(dir.as_str(), name.as_str());
        CacheWrite { dir, temporary, path: self.path(category, key) }
    }
}

// ── Laws ─────────────────────────────────────────────────────────────

/// A safe key holds no slash.
pub proof fn law_safe_key_has_no_slash(key: Text)
    ensures
        slashless(safe_key(key)),
    decreases key.len(),
{
    reveal_strlit("_");
    if key.len() > 0 {
        law_safe_key_has_no_slash(key.drop_last());
    }
}

/// The file for a key lies in the directory of its category, whatever the
/// key.
pub proof fn law_entry_stays_in_its_directory(base: Text, category: Text, key: Text)
    ensures
        slashless(safe_key(key) + ".json"@),
        ({
            let dir = joined_path(base, category);
            entry_path(base, category, key) == if dir.len() == 0 || dir.last() == '/' {
                dir + (safe_key(key) + ".json"@)
            } else {
                dir + "/"@ + (safe_key(key) + ".json"@)
            }
        }),
{
    law_safe_key_has_no_slash(key);
    reveal_strlit(".json");
    reveal_strlit("/");
    let name = safe_key(key) + ".json"@;
    assert forall|k: int| 0 <= k < name.len() implies name[k] != '/' by {
        if k < safe_key(key).len() {
            assert(name[k] == safe_key(key)[k]);
        } else {
            assert(name[k] == ".json"@[k - safe_key(key).len()]);
        }
    }
    if begins(name, "/"@) {
        assert(name.subrange(0, 1)[0] == '/');
    }
}

/// Two keys of a category share a file only where they differ in nothing but
/// slashes and what replaces them.
pub proof fn law_keys_share_no_file(base: Text, category: Text, a: Text, b: Text)
    ensures
        entry_path(base, category, a) == entry_path(base, category, b) <==> safe_key(a) == safe_key(
            b,
        ),
{
    law_entry_stays_in_its_directory(base, category, a);
    law_entry_stays_in_its_directory(base, category, b);
    let dir = joined_path(base, category);
    let x = safe_key(a) + ".json"@;
    let y = safe_key(b) + ".json"@;
    let head = if dir.len() == 0 || dir.last() == '/' {
        dir
    } else {
        dir + "/"@
    };
    if entry_path(base, category, a) == entry_path(base, category, b) {
        assert((head + x).skip(head.len() as int) =~= x);
        assert((head + y).skip(head.len() as int) =~= y);
        assert(x == y);
        assert(x.take(x.len() - ".json"@.len()) =~= safe_key(a));
        assert(y.take(y.len() - ".json"@.len()) =~= safe_key(b));
    }
}

/// What counts for some time counts for any longer time.
pub proof fn law_fresh_for_longer(age_secs: u64, hours: u64, more: u64)
    requires
        hours <= more,
        fresh(age_secs, hours),
    ensures
        fresh(age_secs, more),
{
    assert(hours * 3600 <= more * 3600) by (nonlinear_arith)
        requires
            hours <= more,
    ;
}

} // verus!
