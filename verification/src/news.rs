//! The Minecraft news shown in the launcher, taken from Mojang's feed.
use vstd::prelude::*;
use crate::forge::opt_str;
use crate::paths::copy_opt;
use crate::text::{concat, starts_with, str_starts_with};

verus! {

/// A news item as shown.
#[derive(Debug, Clone)]
pub struct NewsItem {
    pub title: String,
    pub tag: String,
    pub date: String,
    pub text: String,
    pub image_url: Option<String>,
    pub read_more_url: Option<String>,
}

/// An entry of Mojang's news feed. Each image is absent, or present with
/// an optional URL.
#[derive(Debug, Clone)]
pub struct NewsEntry {
    pub title: Option<String>,
    pub tag: Option<String>,
    pub date: Option<String>,
    pub text: Option<String>,
    pub play_page_image: Option<Option<String>>,
    pub news_page_image: Option<Option<String>>,
    pub read_more_link: Option<String>,
    pub news: Option<bool>,
}

/// The text, or the default when absent.
pub open spec fn or_default(o: Option<String>, d: Seq<char>) -> Seq<char> {
    match o {
        Some(s) => s@,
        None => d,
    }
}

/// The image of an entry: the news-page image if present, else the
/// play-page one; a relative URL is made absolute on Mojang's content host.
pub open spec fn image_of(e: NewsEntry) -> Option<Seq<char>> {
    let img = match e.news_page_image {
        Some(i) => i,
        None => match e.play_page_image {
            Some(i) => i,
            None => None,
        },
    };
    match img {
        Some(u) => Some(if starts_with(u@, "http"@) { u@ } else { "https://launchercontent.mojang.com"@ + u@ }),
        None => None,
    }
}

/// An entry is shown unless it is marked as not news, or has neither a
/// title (a missing one counts as `Minecraft`) nor text.
pub open spec fn shown(e: NewsEntry) -> bool {
    e.news != Some(false) && !(or_default(e.title, "Minecraft"@).len() == 0 && or_default(e.text, Seq::empty()).len() == 0)
}

/// An item as plain values.
pub type NewsView = (Seq<char>, Seq<char>, Seq<char>, Seq<char>, Option<Seq<char>>, Option<Seq<char>>);

/// The item shown for an entry: title `Minecraft`, tag `News`, and empty
/// date and text when absent.
pub open spec fn item_of(e: NewsEntry) -> NewsView {
    (
        or_default(e.title, "Minecraft"@),
        or_default(e.tag, "News"@),
        or_default(e.date, Seq::empty()),
        or_default(e.text, Seq::empty()),
        image_of(e),
        opt_str(e.read_more_link),
    )
}

/// An item as plain values.
pub open spec fn item_view(i: NewsItem) -> NewsView {
    (i.title@, i.tag@, i.date@, i.text@, opt_str(i.image_url), opt_str(i.read_more_url))
}

/// The items of the shown entries, in feed order.
pub open spec fn shown_items(entries: Seq<NewsEntry>) -> Seq<NewsView>
    decreases entries.len(),
{
    if entries.len() == 0 {
        Seq::empty()
    } else {
        let rest = shown_items(entries.drop_last());
        if shown(entries.last()) {
            rest.push(item_of(entries.last()))
        } else {
            rest
        }
    }
}

fn text_or(o: &Option<String>, d: &str) -> (r: String)
    ensures
        r@ == or_default(*o, d@),
{
    match o {
        Some(s) => s.clone(),
        None => String::from_str(d),
    }
}

fn entry_image(e: &NewsEntry) -> (r: Option<String>)
    ensures
        opt_str(r) == image_of(*e),
{
    let img: Option<String> = match &e.news_page_image {
        Some(i) => copy_opt(i),
        None => match &e.play_page_image {
            Some(i) => copy_opt(i),
            None => None,
        },
    };
    match img {
        Some(u) => {
            if str_starts_with(u.as_str(), "http") {
                Some(u)
            } else {
                Some(concat("https://launchercontent.mojang.com", u.as_str()))
            }
        },
        None => None,
    }
}

/// The news to show: the items of the shown entries, in feed order, at
/// most twelve.
pub fn news_items(entries: &Vec<NewsEntry>) -> (r: Vec<NewsItem>)
    ensures
        r@.map_values(|i: NewsItem| item_view(i)) == if shown_items(entries@).len() > 12 {
            shown_items(entries@).take(12)
        } else {
            shown_items(entries@)
        },
{
    let mut items: Vec<NewsItem> = Vec::new();
    let mut i: usize = 0;
    while i < entries.len()
        invariant
            i <= entries.len(),
            items.len() < 12,
            items@.map_values(|i: NewsItem| item_view(i)) == shown_items(entries@.take(i as int)),
        decreases entries.len() - i,
    {
        assert(entries@.take(i + 1).drop_last() =~= entries@.take(i as int));
        assert(entries@.take(i + 1).last() == entries@[i as int]);
        let e = &entries[i];
        let title = text_or(&e.title, "Minecraft");
        let text = text_or(&e.text, "");
        proof {
            reveal_strlit("Minecraft");
            reveal_strlit("");
        }
        let skip = match e.news {
            Some(b) => !b,
            None => false,
        };
        assert(title@ == or_default(entries@[i as int].title, "Minecraft"@));
        assert(text@ == or_default(entries@[i as int].text, Seq::empty()));
        assert(skip == (entries@[i as int].news == Some(false)));
        assert(shown(entries@[i as int]) == (!skip && !(title@.len() == 0 && text@.len() == 0)));
        if !skip && !(title.as_str().is_empty() && text.as_str().is_empty()) {
            let ghost before = items@;
            items.push(NewsItem {
                title,
                tag: text_or(&e.tag, "News"),
                date: text_or(&e.date, ""),
                text,
                image_url: entry_image(e),
                read_more_url: copy_opt(&e.read_more_link),
            });
            assert(item_view(items@.last()) == item_of(entries@[i as int]));
            assert(items@.map_values(|i: NewsItem| item_view(i)) =~= before.map_values(|i: NewsItem| item_view(i)).push(item_view(items@.last())));
            if items.len() >= 12 {
                proof {
                    lemma_shown_prefix(entries@, i + 1);
                    let all = shown_items(entries@);
                    if all.len() == 12 {
                        assert(all.take(12) =~= all);
                    }
                }
                return items;
            }
        }
        i = i + 1;
    }
    assert(entries@.take(entries.len() as int) =~= entries@);
    items
}

proof fn lemma_shown_prefix(entries: Seq<NewsEntry>, k: int)
    requires
        0 <= k <= entries.len(),
    ensures
        shown_items(entries).len() >= shown_items(entries.take(k)).len(),
        shown_items(entries).take(shown_items(entries.take(k)).len() as int) == shown_items(entries.take(k)),
    decreases entries.len() - k,
{
    if k == entries.len() {
        assert(entries.take(k) =~= entries);
        assert(shown_items(entries).take(shown_items(entries).len() as int) =~= shown_items(entries));
    } else {
        lemma_shown_prefix(entries, k + 1);
        assert(entries.take(k + 1).drop_last() =~= entries.take(k));
        let a = shown_items(entries.take(k));
        let b = shown_items(entries.take(k + 1));
        assert(b.take(a.len() as int) =~= a);
        assert(shown_items(entries).take(a.len() as int) =~= shown_items(entries).take(b.len() as int).take(a.len() as int));
    }
}

} // verus!
