//! How many bytes of a map are decompiled and how many are not.

use vstd::prelude::*;
use vstd::string::StringExecFns;

verus! {

/// Sizes in bytes of what is decompiled and of what is not. The sums
/// saturate at `usize::MAX`.
#[derive(Debug, Clone, Copy, PartialEq, Eq, Structural)]
pub struct ProgressStats {
    pub undecomped_size: usize,
    pub decomped_size: usize,
}

/// The sum of two sizes, kept at `usize::MAX` where it would pass it.
pub open spec fn capped_sum(a: usize, b: usize) -> usize {
    if a + b > usize::MAX {
        usize::MAX
    } else {
        (a + b) as usize
    }
}

/// A 64-bit size as a `usize`, kept at `usize::MAX` where it would pass it.
pub open spec fn capped_size(size: u64) -> usize {
    if size > usize::MAX {
        usize::MAX
    } else {
        size as usize
    }
}

/// `count` spaces.
pub open spec fn spaces(count: nat) -> Seq<char> {
    Seq::new(count, |i: int| ' ')
}

/// What follows the category column in the heading of a progress table.
pub open spec fn header_tail() -> Seq<char> {
    ": DecompedSize /    Total   OfFolder%  (             OfTotal%)"@
}

impl ProgressStats {
    /// Nothing counted.
    pub fn new() -> (r: Self)
        ensures
            r == (ProgressStats { undecomped_size: 0, decomped_size: 0 }),
    {
        Self { undecomped_size: 0, decomped_size: 0 }
    }

    /// The stats with `size` more decompiled bytes.
    pub open spec fn with_decomped(self, size: u64) -> ProgressStats {
        ProgressStats {
            decomped_size: capped_sum(self.decomped_size, capped_size(size)),
            ..self
        }
    }

    /// The stats with `size` more bytes that are not decompiled.
    pub open spec fn with_undecomped(self, size: u64) -> ProgressStats {
        ProgressStats {
            undecomped_size: capped_sum(self.undecomped_size, capped_size(size)),
            ..self
        }
    }

    /// Counts `size` more decompiled bytes.
    pub fn add_decomped(&mut self, size: u64)
        ensures
            *final(self) == old(self).with_decomped(size),
    {
        self.decomped_size = self.decomped_size.saturating_add(to_usize(size));
    }

    /// Counts `size` more bytes that are not decompiled.
    pub fn add_undecomped(&mut self, size: u64)
        ensures
            *final(self) == old(self).with_undecomped(size),
    {
        self.undecomped_size = self.undecomped_size.saturating_add(to_usize(size));
    }

    /// All bytes, decompiled or not.
    pub fn total(&self) -> (r: usize)
        ensures
            r == capped_sum(self.undecomped_size, self.decomped_size),
    {
        self.undecomped_size.saturating_add(self.decomped_size)
    }

    /// The two entries that a progress tracker takes for the category
    /// `name`: the decompiled bytes under the name itself, and all bytes
    /// under the name followed by `/total`.
    pub fn get_as_frogress_entry(&self, name: &str) -> (r: Vec<(String, usize)>)
        ensures
            r@.len() == 2,
            r@[0].0@ == name@,
            r@[0].1 == self.decomped_size,
            r@[1].0@ == name@ + "/total"@,
            r@[1].1 == capped_sum(self.undecomped_size, self.decomped_size),
    {
        let mut categories: Vec<(String, usize)> = Vec::new();
        categories.push((name.to_owned(), self.decomped_size));
        let mut total_name = name.to_owned();
        total_name.append("/total");
        categories.push((total_name, self.total()));
        categories
    }

    /// The heading of a progress table whose category column is
    /// `category_column_size` characters wide.
    pub fn get_header_as_str(category_column_size: usize) -> (r: String)
        ensures
            r@ == "Category"@ + spaces(
                if category_column_size > 8 {
                    (category_column_size - 8) as nat
                } else {
                    0
                },
            ) + header_tail(),
    {
        let mut ret = "Category".to_owned();
        proof {
            reveal_strlit("Category");
            reveal_strlit(" ");
        }
        let mut width: usize = 8;
        assert(ret@ =~= "Category"@ + spaces(0));
        while width < category_column_size
            invariant
                8 <= width,
                width == 8 || width <= category_column_size,
                ret@ == "Category"@ + spaces((width - 8) as nat),
                " "@ == seq![' '],
            decreases category_column_size - width,
        {
            ret.append(" ");
            width += 1;
            assert(ret@ =~= "Category"@ + spaces((width - 8) as nat));
        }
        ret.append(": DecompedSize /    Total   OfFolder%  (             OfTotal%)");
        ret
    }
}

impl Default for ProgressStats {
    fn default() -> (r: Self)
        ensures
            r == (ProgressStats { undecomped_size: 0, decomped_size: 0 }),
    {
        Self::new()
    }
}

/// A 64-bit size as a `usize`.
pub fn to_usize(size: u64) -> (r: usize)
    ensures
        r == capped_size(size),
{
    if size > usize::MAX as u64 {
        usize::MAX
    } else {
        size as usize
    }
}

} // verus!
