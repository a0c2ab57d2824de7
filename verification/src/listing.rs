//! What a listing of posts shows around them: the offset of a page, the
//! pages that its links name, and its titles.

use crate::text::{digits, push_digits};
use plurify::Plurify;
use vstd::prelude::*;

verus! {

/// What stands between the parts of a title.
pub const SEPARATOR: &'static str = " • ";

/// The number of pages before page `page`. Pages are counted from 1, and
/// page 0 is read as page 1.
pub open spec fn pages_before(page: usize) -> nat {
    if page > 0 {
        (page - 1) as nat
    } else {
        0
    }
}

/// The number of posts on the pages before page `page`, at `limit` posts a
/// page.
pub open spec fn offset_of(page: usize, limit: usize) -> nat {
    (pages_before(page) * limit) as nat
}

/// The page that a listing without a page number shows.
pub open spec fn shown(page: Option<usize>) -> nat {
    match page {
        Some(p) => p as nat,
        None => 1,
    }
}

/// The page after the one shown, where posts are left for it and its number
/// can be written.
pub open spec fn next_of(page: Option<usize>, limit: usize, total: usize) -> Option<usize> {
    if shown(page) * limit >= total {
        None
    } else {
        match page {
            Some(p) => if p < usize::MAX {
                Some((p + 1) as usize)
            } else {
                None
            },
            None => Some(2),
        }
    }
}

/// The page that the link back from page `page` names: the page before it,
/// or no number, which is the first page.
pub open spec fn back_of(page: usize) -> Option<usize> {
    if page > 2 {
        Some((page - 1) as usize)
    } else {
        None
    }
}

/// Whether a search is under way: there is a keyword and it is not empty.
pub open spec fn searching(search: Option<Seq<char>>) -> bool {
    search matches Some(q) && q.len() > 0
}

/// The part of a title that names the search.
pub open spec fn search_part(search: Option<Seq<char>>) -> Seq<char> {
    match search {
        Some(q) => if q.len() > 0 {
            q + SEPARATOR@ + "Search"@ + SEPARATOR@
        } else {
            Seq::empty()
        },
        None => Seq::empty(),
    }
}

/// The part of a title that names the page, from page 2 on.
pub open spec fn page_part(page: Option<usize>) -> Seq<char> {
    match page {
        Some(p) => if p > 1 {
            "Page "@ + digits(p as nat) + SEPARATOR@
        } else {
            Seq::empty()
        },
        None => Seq::empty(),
    }
}

/// The part of a title that describes the site: only on the first page, and
/// only where nothing is searched for.
pub open spec fn description_part(
    search: Option<Seq<char>>,
    page: Option<usize>,
    description: Option<Seq<char>>,
) -> Seq<char> {
    match description {
        Some(d) => if shown(page) == 1 && !searching(search) {
            SEPARATOR@ + d
        } else {
            Seq::empty()
        },
        None => Seq::empty(),
    }
}

/// The title of a listing: the search, the page, the name of the site, and
/// its description.
pub open spec fn title_of(
    search: Option<Seq<char>>,
    page: Option<usize>,
    name: Seq<char>,
    description: Option<Seq<char>>,
) -> Seq<char> {
    search_part(search) + page_part(page) + name + description_part(search, page, description)
}

/// The title of the page of one post: its time, then the name of the site.
pub open spec fn post_title_of(time: Seq<char>, name: Seq<char>) -> Seq<char> {
    time + SEPARATOR@ + name
}

/// Which of three plural forms goes with the number `n`: 0 for the first
/// (`1 post`, `21 posts` in the forms of some languages), 1 for the second
/// (numbers that end in 2 to 4), 2 for the third (all others, and all from
/// 5 to 19 in every hundred).
pub open spec fn form_of(n: nat) -> int {
    if 5 <= n % 100 <= 19 {
        2
    } else if n % 10 == 1 {
        0
    } else if 2 <= n % 10 <= 4 {
        1
    } else {
        2
    }
}

/// The form that goes with `n`, out of three.
pub open spec fn plural_of(n: nat, one: Seq<char>, few: Seq<char>, many: Seq<char>) -> Seq<char> {
    if form_of(n) == 0 {
        one
    } else if form_of(n) == 1 {
        few
    } else {
        many
    }
}

/// What tells how far the listing has come: the page shown, the number of
/// pages as the caller has written it, and the number of posts with its
/// word. Nothing where there is no post.
pub open spec fn totals_of(page: Option<usize>, pages: Seq<char>, total: usize) -> Option<
    Seq<char>,
> {
    if total > 0 {
        Some(
            "Page "@ + digits(shown(page)) + " / "@ + pages + " ("@ + digits(total as nat) + " "@
                + plural_of(total as nat, "post"@, "posts"@, "posts"@) + " total)"@,
        )
    } else {
        None
    }
}

/// Calls `plurify::Plurify::plurify` on `n` with the three forms. The crate
/// picks the third form where `n % 100` lies from 5 to 19, and else goes by
/// the last digit: the first form for 1, the second for 2 to 4, the third
/// for the rest.
#[verifier::external_body]
pub(crate) fn plural<'a>(n: usize, one: &'a str, few: &'a str, many: &'a str) -> (r: &'a str)
    ensures
        r@ == plural_of(n as nat, one@, few@, many@),
{
    n.plurify(&[one, few, many])
}

/// The offset of page `page` at `limit` posts a page, or nothing where that
/// number is too large to be written.
pub fn offset(page: usize, limit: usize) -> (r: Option<usize>)
    ensures
        r == if offset_of(page, limit) <= usize::MAX {
            Some(offset_of(page, limit) as usize)
        } else {
            None
        },
{
    let before: usize = if page > 0 {
        page - 1
    } else {
        page
    };
    before.checked_mul(limit)
}

/// The page that the link to the next page names, if there is a next page.
pub fn next(page: Option<usize>, limit: usize, total: usize) -> (r: Option<usize>)
    ensures
        r == next_of(page, limit, total),
{
    let current: usize = match page {
        Some(p) => p,
        None => 1,
    };
    let reached: bool = match current.checked_mul(limit) {
        Some(seen) => seen >= total,
        None => true,
    };
    if reached {
        None
    } else {
        match page {
            Some(p) => p.checked_add(1),
            None => Some(2),
        }
    }
}

/// The page that the link back from page `page` names.
pub fn back(page: usize) -> (r: Option<usize>)
    ensures
        r == back_of(page),
{
    if page > 2 {
        Some(page - 1)
    } else {
        None
    }
}

/// The title of a listing.
pub fn title(
    search: Option<&str>,
    page: Option<usize>,
    name: &str,
    description: Option<&str>,
) -> (r: String)
    ensures
        r@ == title_of(search.deep_view(), page, name@, description.deep_view()),
{
    let mut t = String::new();
    let mut plain: bool = true;
    if let Some(q) = search {
        if !q.is_empty() {
            t.append(q);
            t.append(SEPARATOR);
            t.append("Search");
            t.append(SEPARATOR);
            plain = false;
        }
    }
    let mut first: bool = true;
    if let Some(p) = page {
        if p > 1 {
            t.append("Page ");
            push_digits(&mut t, p as u64);
            t.append(SEPARATOR);
        }
        first = p == 1;
    }
    t.append(name);
    if let Some(d) = description {
        if first && plain {
            t.append(SEPARATOR);
            t.append(d);
        }
    }
    t
}

/// The line that tells how far the listing has come, where there is a post.
/// `pages` is the number of pages, written by the caller.
pub fn totals(page: Option<usize>, pages: &str, total: usize) -> (r: Option<String>)
    ensures
        r.deep_view() == totals_of(page, pages@, total),
{
    if total > 0 {
        let current: usize = match page {
            Some(p) => p,
            None => 1,
        };
        let mut t = String::new();
        t.append("Page ");
        push_digits(&mut t, current as u64);
        t.append(" / ");
        t.append(pages);
        t.append(" (");
        push_digits(&mut t, total as u64);
        t.append(" ");
        t.append(plural(total, "post", "posts", "posts"));
        t.append(" total)");
        Some(t)
    } else {
        None
    }
}

/// The title of the page of one post.
pub fn post_title(time: &str, name: &str) -> (r: String)
    ensures
        r@ == post_title_of(time@, name@),
{
    let mut t = String::new();
    t.append(time);
    t.append(SEPARATOR);
    t.append(name);
    t
}

} // verus!
