use vstd::prelude::*;
use vstd::string::{StrSliceExecFns, StringExecFns};

verus! {

/// What the desktop service reports as a display's picture: a path, and
/// whether it names a folder of pictures rather than one picture.
#[derive(Clone, Debug)]
pub struct DesktopImage {
    pub path: String,
    pub is_directory: bool,
}

/// One row of the desktop-picture index: the highest `rowid` was written last.
#[derive(Clone, Debug)]
pub struct IndexRow {
    pub rowid: i64,
    pub value: String,
}

/// What is known of one display: the picture the service reports, if any,
/// and the rows of the desktop-picture index, if it could be read.
#[derive(Clone, Debug)]
pub struct DisplayWallpaper {
    pub image: Option<DesktopImage>,
    pub index_rows: Option<Vec<IndexRow>>,
}

pub open spec fn opt_text(o: Option<String>) -> Option<Seq<char>> {
    match o {
        Some(s) => Some(s@),
        None => None,
    }
}

/// The position of the row written last: the first row of greatest `rowid`.
pub open spec fn latest_row(rows: Seq<IndexRow>) -> int
    decreases rows.len(),
{
    if rows.len() <= 1 {
        0
    } else {
        let k = latest_row(rows.drop_last());
        if rows.last().rowid > rows[k].rowid {
            rows.len() - 1
        } else {
            k
        }
    }
}

/// The row that `latest_row` picks has the greatest `rowid`, and every row
/// before it a smaller one.
pub proof fn lemma_latest_row(rows: Seq<IndexRow>)
    requires
        rows.len() > 0,
    ensures
        0 <= latest_row(rows) < rows.len(),
        forall|j: int| 0 <= j < rows.len() ==> #[trigger] rows[j].rowid <= rows[latest_row(rows)].rowid,
        forall|j: int| 0 <= j < latest_row(rows) ==> #[trigger] rows[j].rowid < rows[latest_row(rows)].rowid,
    decreases rows.len(),
{
    if rows.len() > 1 {
        lemma_latest_row(rows.drop_last());
        assert forall|j: int| 0 <= j < rows.len() - 1 implies #[trigger] rows[j].rowid == rows.drop_last()[j].rowid by {}
    }
}

/// `name` appended to the path `dir` as one more component.
pub open spec fn joined(dir: Seq<char>, name: Seq<char>) -> Seq<char> {
    if dir.len() > 0 && dir.last() == '/' {
        dir + name
    } else {
        dir + seq!['/'] + name
    }
}

/// The picture showing from the folder `dir`: the index's latest entry,
/// within the folder. Nothing when the index could not be read or is empty.
pub open spec fn from_directory(dir: Seq<char>, rows: Option<Seq<IndexRow>>) -> Option<Seq<char>> {
    match rows {
        Some(rs) => if rs.len() > 0 {
            Some(joined(dir, rs[latest_row(rs)].value@))
        } else {
            None
        },
        None => None,
    }
}

/// The picture a display is showing: the reported path when it is a file,
/// the index's latest entry within it when it is a folder.
pub open spec fn current_of(w: DisplayWallpaper) -> Option<Seq<char>> {
    match w.image {
        None => None,
        Some(img) => if !img.is_directory {
            Some(img.path@)
        } else {
            from_directory(
                img.path@,
                match w.index_rows {
                    Some(v) => Some(v@),
                    None => None,
                },
            )
        },
    }
}

/// A display reported with a picture file shows that very path; the index
/// plays no part.
pub proof fn lemma_file_reported_as_is(w: DisplayWallpaper)
    requires
        w.image is Some,
        !w.image->0.is_directory,
    ensures
        current_of(w) == Some(w.image->0.path@),
{
}

/// A display reported with a folder shows the folder joined with the value
/// of the index row of greatest `rowid`.
pub proof fn lemma_directory_uses_latest_row(w: DisplayWallpaper, k: int)
    requires
        w.image is Some,
        w.image->0.is_directory,
        w.index_rows is Some,
        0 <= k < w.index_rows->0@.len(),
        forall|j: int|
            0 <= j < w.index_rows->0@.len() && j != k ==> #[trigger] w.index_rows->0@[j].rowid
                < w.index_rows->0@[k].rowid,
    ensures
        current_of(w) == Some(joined(w.image->0.path@, w.index_rows->0@[k].value@)),
{
    let rows = w.index_rows->0@;
    lemma_latest_row(rows);
    let l = latest_row(rows);
    if l != k {
        assert(rows[l].rowid < rows[k].rowid);
        assert(rows[k].rowid <= rows[l].rowid);
    }
}

/// The known pictures, in order, with the displays of unknown picture left out.
pub open spec fn present(s: Seq<Option<Seq<char>>>) -> Seq<Seq<char>>
    decreases s.len(),
{
    if s.len() == 0 {
        seq![]
    } else {
        let rest = present(s.drop_last());
        match s.last() {
            Some(p) => rest.push(p),
            None => rest,
        }
    }
}

/// The value of the index row written last, if there is a row.
pub fn latest_index_value(rows: &Vec<IndexRow>) -> (r: Option<String>)
    ensures
        r is None <==> rows@.len() == 0,
        r is Some ==> r->0@ == rows@[latest_row(rows@)].value@,
{
    if rows.len() == 0 {
        return None;
    }
    let mut best: usize = 0;
    let mut i: usize = 1;
    while i < rows.len()
        invariant
            1 <= i <= rows@.len(),
            best < i,
            best as int == latest_row(rows@.subrange(0, i as int)),
        decreases rows@.len() - i,
    {
        let ghost pre = rows@.subrange(0, i as int);
        assert(rows@.subrange(0, i + 1).drop_last() == pre);
        proof {
            lemma_latest_row(pre);
        }
        assert(pre[best as int] == rows@[best as int]);
        if rows[i].rowid > rows[best].rowid {
            best = i;
        }
        i = i + 1;
    }
    assert(rows@.subrange(0, rows@.len() as int) == rows@);
    Some(rows[best].value.clone())
}

/// Appends `name` to the path `dir` as one more component.
pub fn join_path(dir: &str, name: &str) -> (r: String)
    ensures
        r@ == joined(dir@, name@),
{
    let n = dir.unicode_len();
    let mut r = String::from_str(dir);
    if !(n > 0 && dir.get_char(n - 1) == '/') {
        proof {
            reveal_strlit("/");
        }
        r.append("/");
    }
    r.append(name);
    r
}

/// The picture showing from the folder `dir`, given the desktop-picture
/// index rows if they could be read.
pub fn get_from_directory(dir: &str, index_rows: &Option<Vec<IndexRow>>) -> (r: Option<String>)
    ensures
        opt_text(r) == from_directory(
            dir@,
            match index_rows {
                Some(v) => Some(v@),
                None => None,
            },
        ),
{
    match index_rows {
        Some(rows) => match latest_index_value(rows) {
            Some(name) => Some(join_path(dir, name.as_str())),
            None => None,
        },
        None => None,
    }
}

/// The picture a display is showing, if it can be told.
pub fn current_for(w: &DisplayWallpaper) -> (r: Option<String>)
    ensures
        opt_text(r) == current_of(*w),
{
    match &w.image {
        None => None,
        Some(img) => if !img.is_directory {
            Some(img.path.clone())
        } else {
            get_from_directory(img.path.as_str(), &w.index_rows)
        },
    }
}

/// The picture of each display, one entry per display and in the same order.
pub fn current_for_all(ws: &Vec<DisplayWallpaper>) -> (r: Vec<Option<String>>)
    ensures
        r@.len() == ws@.len(),
        forall|i: int| 0 <= i < ws@.len() ==> opt_text(#[trigger] r@[i]) == current_of(ws@[i]),
{
    let mut r: Vec<Option<String>> = Vec::new();
    let mut i: usize = 0;
    while i < ws.len()
        invariant
            i <= ws@.len(),
            r@.len() == i,
            forall|j: int| 0 <= j < i ==> opt_text(#[trigger] r@[j]) == current_of(ws@[j]),
        decreases ws@.len() - i,
    {
        r.push(current_for(&ws[i]));
        i = i + 1;
    }
    r
}

/// The pictures that can be told, in display order; displays whose picture
/// cannot be told are left out.
pub fn get_current(ws: &Vec<DisplayWallpaper>) -> (r: Vec<String>)
    ensures
        r@.map_values(|s: String| s@) == present(ws@.map_values(|w: DisplayWallpaper| current_of(w))),
{
    let ghost all = ws@.map_values(|w: DisplayWallpaper| current_of(w));
    let mut r: Vec<String> = Vec::new();
    let mut i: usize = 0;
    while i < ws.len()
        invariant
            i <= ws@.len(),
            all == ws@.map_values(|w: DisplayWallpaper| current_of(w)),
            r@.map_values(|s: String| s@) == present(all.subrange(0, i as int)),
        decreases ws@.len() - i,
    {
        let ghost before = r@;
        assert(all.subrange(0, i + 1).drop_last() == all.subrange(0, i as int));
        let c = current_for(&ws[i]);
        match c {
            Some(p) => {
                r.push(p);
                assert(r@.map_values(|s: String| s@) == before.map_values(|s: String| s@).push(
                    p@,
                ));
            },
            None => {},
        }
        i = i + 1;
    }
    assert(all.subrange(0, ws@.len() as int) == all);
    r
}

} // verus!
