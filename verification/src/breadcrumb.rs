//! Breadcrumb navigation data: a path such as `/home/user` becomes the
//! clickable items `/`, `home`, `user`, each carrying the full path it
//! navigates to.

use vstd::prelude::*;

verus! {

/// One clickable crumb: the text it shows and the path it navigates to.
#[derive(Clone, Debug)]
pub struct BreadcrumbItem {
    pub label: String,
    pub value: String,
}

impl BreadcrumbItem {
    pub fn new(label: String, value: String) -> (r: BreadcrumbItem)
        ensures
            r.label == label,
            r.value == value,
    {
        BreadcrumbItem { label, value }
    }
}

/// The mathematical value of a crumb: its two strings.
#[verifier::ext_equal]
pub struct BreadcrumbModel {
    pub label: Seq<char>,
    pub value: Seq<char>,
}

impl View for BreadcrumbItem {
    type V = BreadcrumbModel;

    open spec fn view(&self) -> BreadcrumbModel {
        BreadcrumbModel { label: self.label@, value: self.value@ }
    }
}

/// The values of a crumb vector.
pub open spec fn crumb_views(s: Seq<BreadcrumbItem>) -> Seq<BreadcrumbModel> {
    s.map_values(|b: BreadcrumbItem| b@)
}

/// The crumbs contributed by the path's characters from position `i` on,
/// scanning one character at a time: `cur` is the path accumulated from
/// the segments already emitted, `seg` the segment currently being read.
/// A slash or the end of the path closes the segment; empty segments
/// (repeated slashes) contribute nothing.
pub open spec fn crumbs_from(p: Seq<char>, i: int, cur: Seq<char>, seg: Seq<char>) -> Seq<
    BreadcrumbModel,
>
    decreases p.len() - i,
{
    if i < 0 || i >= p.len() {
        if seg.len() > 0 {
            seq![BreadcrumbModel { label: seg, value: cur + "/"@ + seg }]
        } else {
            Seq::<BreadcrumbModel>::empty()
        }
    } else if p[i] == '/' {
        if seg.len() > 0 {
            seq![BreadcrumbModel { label: seg, value: cur + "/"@ + seg }] + crumbs_from(
                p,
                i + 1,
                cur + "/"@ + seg,
                Seq::<char>::empty(),
            )
        } else {
            crumbs_from(p, i + 1, cur, Seq::<char>::empty())
        }
    } else {
        crumbs_from(p, i + 1, cur, seg.push(p[i]))
    }
}

/// What a path parses to: the root crumb, then one crumb per non-empty
/// segment between slashes, each valued at the path up to and including
/// that segment.
pub open spec fn crumbs_of(p: Seq<char>) -> Seq<BreadcrumbModel> {
    seq![BreadcrumbModel { label: "/"@, value: "/"@ }] + crumbs_from(
        p,
        0,
        Seq::<char>::empty(),
        Seq::<char>::empty(),
    )
}

/// Appending a crumb appends its value.
proof fn lemma_crumb_views_push(s: Seq<BreadcrumbItem>, x: BreadcrumbItem)
    ensures
        crumb_views(s.push(x)) =~= crumb_views(s).push(x@),
{
}

/// Parses a path into its breadcrumb items.
pub fn parse_path_to_breadcrumb_items(path: &str) -> (r: Vec<BreadcrumbItem>)
    ensures
        crumb_views(r@) == crumbs_of(path@),
{
    let mut items: Vec<BreadcrumbItem> = Vec::new();
    let root = BreadcrumbItem::new("/".to_owned(), "/".to_owned());
    let ghost root_model = root@;
    items.push(root);
    proof {
        assert(crumb_views(items@) =~= seq![root_model]);
    }
    let mut cur = String::new();
    let n = path.unicode_len();
    let mut i: usize = 0;
    let mut seg_start: usize = 0;
    proof {
        assert(path@.subrange(0, 0) =~= Seq::<char>::empty());
    }
    while i < n
        invariant
            i <= n,
            seg_start <= i,
            n == path@.len(),
            crumbs_of(path@) == crumb_views(items@) + crumbs_from(
                path@,
                i as int,
                cur@,
                path@.subrange(seg_start as int, i as int),
            ),
            forall|t: int| seg_start <= t < i ==> path@[t] != '/',
        decreases n - i,
    {
        let c = path.get_char(i);
        let ghost seg = path@.subrange(seg_start as int, i as int);
        let ghost cur0 = cur@;
        if c == '/' {
            if i > seg_start {
                let seg_str = path.substring_char(seg_start, i);
                let label = seg_str.to_owned();
                let mut value = cur.clone();
                value.append("/");
                value.append(seg_str);
                let item = BreadcrumbItem::new(label, value.clone());
                let ghost before = items@;
                let ghost item_model = item@;
                items.push(item);
                cur = value;
                proof {
                    lemma_crumb_views_push(before, item);
                    assert(item_model == (BreadcrumbModel { label: seg, value: cur@ }));
                    assert(crumb_views(items@) =~= crumb_views(before).push(item_model));
                    assert(crumbs_from(path@, i as int, cur0, seg) == seq![item_model]
                        + crumbs_from(path@, i as int + 1, cur@, Seq::<char>::empty()));
                    assert(crumb_views(before) + crumbs_from(path@, i as int, cur0, seg)
                        =~= crumb_views(items@) + crumbs_from(
                        path@,
                        i as int + 1,
                        cur@,
                        Seq::<char>::empty(),
                    ));
                }
            }
            seg_start = i + 1;
            proof {
                assert(path@.subrange(seg_start as int, i as int + 1) =~= Seq::<char>::empty());
            }
        } else {
            proof {
                assert(path@.subrange(seg_start as int, i as int + 1) =~= seg.push(path@[i as int]));
            }
        }
        i = i + 1;
    }
    if seg_start < n {
        let seg_str = path.substring_char(seg_start, n);
        let label = seg_str.to_owned();
        let mut value = cur.clone();
        value.append("/");
        value.append(seg_str);
        let ghost before = items@;
        let item = BreadcrumbItem::new(label, value);
        let ghost item_model = item@;
        items.push(item);
        proof {
            lemma_crumb_views_push(before, item);
            assert(crumb_views(items@) =~= crumb_views(before).push(item_model));
            assert(crumbs_from(
                path@,
                n as int,
                cur@,
                path@.subrange(seg_start as int, n as int),
            ) == seq![item_model]);
            assert(crumb_views(items@) =~= crumbs_of(path@));
        }
    } else {
        proof {
            assert(crumbs_from(path@, n as int, cur@, path@.subrange(
                seg_start as int,
                n as int,
            )).len() == 0);
            assert(crumb_views(items@) + crumbs_from(
                path@,
                n as int,
                cur@,
                path@.subrange(seg_start as int, n as int),
            ) =~= crumb_views(items@));
        }
    }
    items
}

} // verus!
