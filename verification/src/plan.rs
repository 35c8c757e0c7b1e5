//! The path planner and the run planner.
//!
//! Per item: the resolved rule picks the tool, the tool picks the output
//! extension, and the output path is the per-feed directory plus the
//! sanitized item title. Per run: every feed that clears the exclusion filter
//! contributes one planned capture for each of its items, in order. Whether
//! a planned capture is then skipped is decided by `should_capture` from the
//! observed state of its output file.

use vstd::prelude::*;
use vstd::string::StringExecFns;

use crate::assoc::item_matches_feed;
use crate::assoc::items_for;
use crate::assoc::matching_items;
use crate::exclude::in_blacklist;
use crate::exclude::is_url_in_blacklist;
use crate::feed::Feed;
use crate::feeditem::FeedItem;
use crate::resolve::get_setting_from_url;
use crate::resolve::resolve_spec;
use crate::sanitize::sanitize_spec;
use crate::sanitize::sanitize_str;
use crate::setting::Setting;
use crate::strutil::opt_chars;
use crate::strutil::str_eq;

verus! {

/// One decided capture: the file to produce and the command line that
/// produces it.
pub struct PlannedCapture {
    pub outfile: String,
    pub cmd: String,
}

impl View for PlannedCapture {
    type V = (Seq<char>, Seq<char>);

    open spec fn view(&self) -> (Seq<char>, Seq<char>) {
        (self.outfile@, self.cmd@)
    }
}

impl DeepView for PlannedCapture {
    type V = (Seq<char>, Seq<char>);

    open spec fn deep_view(&self) -> (Seq<char>, Seq<char>) {
        self@
    }
}

/// A feed that is to be archived carries all three of its required fields.
pub open spec fn feed_wf(feed: Feed) -> bool {
    feed.rssurl is Some && feed.url is Some && feed.title is Some
}

/// An item that is to be captured carries all three of its required fields.
pub open spec fn item_wf(item: FeedItem) -> bool {
    item.feedurl is Some && item.url is Some && item.title is Some
}

/// The per-feed output directory: output root, separator, sanitized title.
pub open spec fn feed_dir_spec(out_dir: Seq<char>, feed_title: Seq<char>) -> Seq<char> {
    out_dir + "/"@ + sanitize_spec(feed_title)
}

/// The markup output path for a sanitized title.
pub open spec fn outfile_html(feed_dir: Seq<char>, st: Seq<char>) -> Seq<char> {
    feed_dir + "/"@ + st + ".html"@
}

/// The plain-text output path for a sanitized title.
pub open spec fn outfile_txt(feed_dir: Seq<char>, st: Seq<char>) -> Seq<char> {
    feed_dir + "/"@ + st + ".txt"@
}

/// The built-in default capture: the markup tool with its one conservative
/// flag.
pub open spec fn default_plan(feed_dir: Seq<char>, st: Seq<char>, url: Seq<char>) -> (
    Seq<char>,
    Seq<char>,
) {
    (outfile_html(feed_dir, st), "monolith -s "@ + url + " > "@ + outfile_html(feed_dir, st))
}

/// The resolved rule as an optional value, as rule resolution reports it.
pub open spec fn setting_opt(r: Result<&Setting, ()>) -> Option<Setting> {
    match r {
        Ok(s) => Option::Some(*s),
        Err(_) => Option::None,
    }
}

/// The planned capture for one item: output path and command line, decided
/// by the resolved rule. An unrecognized tool name falls back to the
/// default capture.
pub open spec fn plan_item_spec(
    feed_dir: Seq<char>,
    title: Seq<char>,
    url: Seq<char>,
    setting: Option<Setting>,
) -> (Seq<char>, Seq<char>) {
    let st = sanitize_spec(title);
    match setting {
        Option::Some(s) => if s.cmd@ == "monolith"@ {
            (
                outfile_html(feed_dir, st),
                "monolith -"@ + s.args@ + " "@ + url + " > "@ + outfile_html(feed_dir, st),
            )
        } else if s.cmd@ == "lynx"@ {
            (outfile_txt(feed_dir, st), "lynx "@ + url + " -dump > "@ + outfile_txt(feed_dir, st))
        } else {
            default_plan(feed_dir, st, url)
        },
        Option::None => default_plan(feed_dir, st, url),
    }
}

/// The planned captures of a list of items, in order.
pub open spec fn plan_items_spec(
    feed_dir: Seq<char>,
    items: Seq<FeedItem>,
    settings: Seq<Setting>,
) -> Seq<(Seq<char>, Seq<char>)>
    decreases items.len(),
{
    if items.len() == 0 {
        Seq::empty()
    } else {
        seq![
            plan_item_spec(
                feed_dir,
                opt_chars(items[0].title),
                opt_chars(items[0].url),
                resolve_spec(opt_chars(items[0].url), settings),
            ),
        ] + plan_items_spec(feed_dir, items.subrange(1, items.len() as int), settings)
    }
}

/// What one feed contributes to a run: nothing when the exclusion list
/// matches its site URL, else one planned capture per associated item.
pub open spec fn plan_feed_spec(
    out_dir: Seq<char>,
    feed: Feed,
    items: Seq<FeedItem>,
    blacklist: Seq<String>,
    settings: Seq<Setting>,
) -> Seq<(Seq<char>, Seq<char>)> {
    if in_blacklist(opt_chars(feed.url), blacklist) {
        Seq::empty()
    } else {
        plan_items_spec(
            feed_dir_spec(out_dir, opt_chars(feed.title)),
            matching_items(feed, items),
            settings,
        )
    }
}

/// The planned captures of a whole run, feed by feed in store order.
pub open spec fn plan_run_spec(
    out_dir: Seq<char>,
    feeds: Seq<Feed>,
    items: Seq<FeedItem>,
    blacklist: Seq<String>,
    settings: Seq<Setting>,
) -> Seq<(Seq<char>, Seq<char>)>
    decreases feeds.len(),
{
    if feeds.len() == 0 {
        Seq::empty()
    } else {
        plan_feed_spec(out_dir, feeds[0], items, blacklist, settings) + plan_run_spec(
            out_dir,
            feeds.subrange(1, feeds.len() as int),
            items,
            blacklist,
            settings,
        )
    }
}

/// The output directories of the feeds that clear the exclusion filter, in
/// store order.
pub open spec fn feed_dirs_spec(
    out_dir: Seq<char>,
    feeds: Seq<Feed>,
    blacklist: Seq<String>,
) -> Seq<Seq<char>>
    decreases feeds.len(),
{
    if feeds.len() == 0 {
        Seq::empty()
    } else {
        (if in_blacklist(opt_chars(feeds[0].url), blacklist) {
            Seq::empty()
        } else {
            seq![feed_dir_spec(out_dir, opt_chars(feeds[0].title))]
        }) + feed_dirs_spec(out_dir, feeds.subrange(1, feeds.len() as int), blacklist)
    }
}

/// Whether a planned capture must actually run, from the observed state of
/// its output file: `None` when the file is absent or unreadable, `Some`
/// with its size otherwise. Only an existing file with content counts as a
/// completed capture; a zero-length artifact is retried.
pub fn should_capture(existing: Option<u64>) -> (b: bool)
    ensures
        b == match existing {
            Option::None => true,
            Option::Some(len) => len == 0,
        },
{
    match existing {
        None => true,
        Some(len) => len == 0,
    }
}

/// Builds the per-feed output directory path.
pub fn feed_directory(out_dir: &str, feed_title: &str) -> (r: String)
    ensures
        r@ == feed_dir_spec(out_dir@, feed_title@),
{
    let st = sanitize_str(feed_title);
    let mut r = String::from_str(out_dir);
    r.append("/");
    r.append(st.as_str());
    r
}

/// The default capture invocation for one item.
fn default_capture(feed_dir: &str, st: &String, url: &str) -> (r: PlannedCapture)
    ensures
        r@ == default_plan(feed_dir@, st@, url@),
{
    let mut outfile = String::from_str(feed_dir);
    outfile.append("/");
    outfile.append(st.as_str());
    outfile.append(".html");
    let mut cmd = String::from_str("monolith -s ");
    cmd.append(url);
    cmd.append(" > ");
    cmd.append(outfile.as_str());
    PlannedCapture { outfile, cmd }
}

/// Decides the output path and the command line for one item from its
/// resolved rule; a missing or unrecognized rule takes the default capture.
pub fn plan_item(feed_dir: &str, title: &str, url: &str, setting: Result<&Setting, ()>) -> (r:
    PlannedCapture)
    ensures
        r@ == plan_item_spec(feed_dir@, title@, url@, setting_opt(setting)),
{
    let st = sanitize_str(title);
    match setting {
        Ok(s) => {
            if str_eq(s.cmd.as_str(), "monolith") {
                let mut outfile = String::from_str(feed_dir);
                outfile.append("/");
                outfile.append(st.as_str());
                outfile.append(".html");
                let mut cmd = String::from_str("monolith -");
                cmd.append(s.args.as_str());
                cmd.append(" ");
                cmd.append(url);
                cmd.append(" > ");
                cmd.append(outfile.as_str());
                PlannedCapture { outfile, cmd }
            } else if str_eq(s.cmd.as_str(), "lynx") {
                let mut outfile = String::from_str(feed_dir);
                outfile.append("/");
                outfile.append(st.as_str());
                outfile.append(".txt");
                let mut cmd = String::from_str("lynx ");
                cmd.append(url);
                cmd.append(" -dump > ");
                cmd.append(outfile.as_str());
                PlannedCapture { outfile, cmd }
            } else {
                default_capture(feed_dir, &st, url)
            }
        },
        Err(_) => default_capture(feed_dir, &st, url),
    }
}

/// Every item selected for a feed is as well-formed as the pool it came
/// from.
proof fn lemma_matching_items_wf(feed: Feed, items: Seq<FeedItem>)
    requires
        forall|i: int| 0 <= i < items.len() ==> item_wf(#[trigger] items[i]),
    ensures
        forall|k: int|
            0 <= k < matching_items(feed, items).len() ==> item_wf(
                #[trigger] matching_items(feed, items)[k],
            ),
    decreases items.len(),
{
    if items.len() == 0 {
    } else {
        let rest = items.subrange(1, items.len() as int);
        assert(forall|i: int| 0 <= i < rest.len() ==> rest[i] == items[i + 1]);
        lemma_matching_items_wf(feed, rest);
        let m = matching_items(feed, items);
        assert forall|k: int| 0 <= k < m.len() implies item_wf(m[k]) by {
            if item_matches_feed(items[0], feed) {
                if k == 0 {
                    assert(m[0] == items[0]);
                } else {
                    assert(m[k] == matching_items(feed, rest)[k - 1]);
                }
            } else {
                assert(m[k] == matching_items(feed, rest)[k]);
            }
        }
    }
}

/// The output directories that a run creates: one per feed that passes the
/// exclusion filter, in store order.
pub fn feed_directories(out_dir: &str, feeds: &Vec<Feed>, blacklist: &Vec<String>) -> (r: Vec<
    String,
>)
    requires
        forall|i: int| 0 <= i < feeds@.len() ==> feed_wf(#[trigger] feeds@[i]),
    ensures
        r.deep_view() == feed_dirs_spec(out_dir@, feeds@, blacklist@),
{
    let nf = feeds.len();
    let mut out: Vec<String> = Vec::new();
    let mut i: usize = 0;
    proof {
        assert(feeds@.subrange(0, nf as int) =~= feeds@);
        assert(out.deep_view() + feed_dirs_spec(out_dir@, feeds@, blacklist@) =~= feed_dirs_spec(
            out_dir@,
            feeds@,
            blacklist@,
        ));
    }
    while i < nf
        invariant
            nf == feeds@.len(),
            0 <= i <= nf,
            forall|j: int| 0 <= j < feeds@.len() ==> feed_wf(#[trigger] feeds@[j]),
            feed_dirs_spec(out_dir@, feeds@, blacklist@) == out.deep_view() + feed_dirs_spec(
                out_dir@,
                feeds@.subrange(i as int, nf as int),
                blacklist@,
            ),
        decreases nf - i,
    {
        let ghost prev_out = out.deep_view();
        let ghost suf = feeds@.subrange(i as int, nf as int);
        let ghost suf1 = feeds@.subrange(i + 1, nf as int);
        proof {
            assert(suf[0] == feeds@[i as int]);
            assert(suf.subrange(1, suf.len() as int) =~= suf1);
        }
        let feed = &feeds[i];
        let furl = match &feed.url {
            Some(u) => u,
            None => unreached(),
        };
        if !is_url_in_blacklist(furl.as_str(), blacklist.as_slice()) {
            let ftitle = match &feed.title {
                Some(t) => t,
                None => unreached(),
            };
            let fdir = feed_directory(out_dir, ftitle.as_str());
            out.push(fdir);
            proof {
                assert(out.deep_view() =~= prev_out + seq![
                    feed_dir_spec(out_dir@, opt_chars(feeds@[i as int].title)),
                ]);
            }
        }
        proof {
            assert(out.deep_view() + feed_dirs_spec(out_dir@, suf1, blacklist@) =~= prev_out
                + feed_dirs_spec(out_dir@, suf, blacklist@));
        }
        i = i + 1;
    }
    proof {
        assert(feeds@.subrange(nf as int, nf as int) =~= Seq::<Feed>::empty());
    }
    out
}

/// Plans a whole run: for every feed that clears the exclusion filter, one
/// planned capture per associated item, in store order.
pub fn plan_run(
    out_dir: &str,
    feeds: &Vec<Feed>,
    items: &Vec<FeedItem>,
    blacklist: &Vec<String>,
    settings: &Vec<Setting>,
) -> (r: Vec<PlannedCapture>)
    requires
        forall|i: int| 0 <= i < feeds@.len() ==> feed_wf(#[trigger] feeds@[i]),
        forall|i: int| 0 <= i < items@.len() ==> item_wf(#[trigger] items@[i]),
    ensures
        r.deep_view() == plan_run_spec(out_dir@, feeds@, items@, blacklist@, settings@),
{
    let nf = feeds.len();
    let mut out: Vec<PlannedCapture> = Vec::new();
    let mut i: usize = 0;
    proof {
        assert(feeds@.subrange(0, nf as int) =~= feeds@);
        assert(out.deep_view() + plan_run_spec(out_dir@, feeds@, items@, blacklist@, settings@)
            =~= plan_run_spec(out_dir@, feeds@, items@, blacklist@, settings@));
    }
    while i < nf
        invariant
            nf == feeds@.len(),
            0 <= i <= nf,
            forall|j: int| 0 <= j < feeds@.len() ==> feed_wf(#[trigger] feeds@[j]),
            forall|j: int| 0 <= j < items@.len() ==> item_wf(#[trigger] items@[j]),
            plan_run_spec(out_dir@, feeds@, items@, blacklist@, settings@) == out.deep_view()
                + plan_run_spec(
                out_dir@,
                feeds@.subrange(i as int, nf as int),
                items@,
                blacklist@,
                settings@,
            ),
        decreases nf - i,
    {
        let ghost prev_out = out.deep_view();
        let ghost suf = feeds@.subrange(i as int, nf as int);
        let ghost suf1 = feeds@.subrange(i + 1, nf as int);
        proof {
            assert(suf[0] == feeds@[i as int]);
            assert(suf.subrange(1, suf.len() as int) =~= suf1);
        }
        let feed = &feeds[i];
        let furl = match &feed.url {
            Some(u) => u,
            None => unreached(),
        };
        if !is_url_in_blacklist(furl.as_str(), blacklist.as_slice()) {
            let ftitle = match &feed.title {
                Some(t) => t,
                None => unreached(),
            };
            let fdir = feed_directory(out_dir, ftitle.as_str());
            let mitems = items_for(feed, items);
            proof {
                lemma_matching_items_wf(feeds@[i as int], items@);
            }
            let m = mitems.len();
            let ghost fd = fdir@;
            let ghost mi = mitems@;
            let ghost base = out.deep_view();
            let mut j: usize = 0;
            proof {
                assert(mi.subrange(0, m as int) =~= mi);
            }
            while j < m
                invariant
                    m == mitems@.len(),
                    mi == mitems@,
                    fd == fdir@,
                    0 <= j <= m,
                    forall|k: int| 0 <= k < mi.len() ==> item_wf(#[trigger] mi[k]),
                    base + plan_items_spec(fd, mi, settings@) == out.deep_view() + plan_items_spec(
                        fd,
                        mi.subrange(j as int, m as int),
                        settings@,
                    ),
                decreases m - j,
            {
                let ghost inner_prev = out.deep_view();
                let ghost isuf = mi.subrange(j as int, m as int);
                let ghost isuf1 = mi.subrange(j + 1, m as int);
                proof {
                    assert(isuf[0] == mi[j as int]);
                    assert(isuf.subrange(1, isuf.len() as int) =~= isuf1);
                }
                let item = &mitems[j];
                let ititle = match &item.title {
                    Some(t) => t,
                    None => unreached(),
                };
                let iurl = match &item.url {
                    Some(u) => u,
                    None => unreached(),
                };
                let setting = get_setting_from_url(iurl.as_str(), settings.as_slice());
                let planned = plan_item(fdir.as_str(), ititle.as_str(), iurl.as_str(), setting);
                proof {
                    assert(setting_opt(setting) == resolve_spec(opt_chars(mi[j as int].url), settings@));
                    assert(planned@ == plan_item_spec(
                        fd,
                        opt_chars(mi[j as int].title),
                        opt_chars(mi[j as int].url),
                        resolve_spec(opt_chars(mi[j as int].url), settings@),
                    ));
                }
                out.push(planned);
                proof {
                    assert(out.deep_view() =~= inner_prev + seq![planned@]);
                    assert(out.deep_view() + plan_items_spec(fd, isuf1, settings@) =~= inner_prev
                        + plan_items_spec(fd, isuf, settings@));
                }
                j = j + 1;
            }
            proof {
                assert(mi.subrange(m as int, m as int) =~= Seq::<FeedItem>::empty());
                assert(out.deep_view() =~= base + plan_items_spec(fd, mi, settings@));
                assert(plan_feed_spec(out_dir@, feeds@[i as int], items@, blacklist@, settings@)
                    == plan_items_spec(fd, mi, settings@));
            }
        }
        proof {
            assert(out.deep_view() + plan_run_spec(out_dir@, suf1, items@, blacklist@, settings@)
                =~= prev_out + plan_run_spec(out_dir@, suf, items@, blacklist@, settings@));
        }
        i = i + 1;
    }
    proof {
        assert(feeds@.subrange(nf as int, nf as int) =~= Seq::<Feed>::empty());
    }
    out
}

} // verus!
