//! Hull selection list and the text rendering of hulls and design slots.

use vstd::prelude::*;
use crate::data::{GameData, HullClass, Language, has_id};
use crate::research::{next_index, prev_index};
use crate::ship_design::{ModuleCategory, ShipDesign, InstalledModule, first_index};
use crate::text::{i32_to_text, int_decimal, join_lines, join_with, usize_to_text};

verus! {

/// Marker in front of a hull line: `>` for the selected hull, a space otherwise.
pub open spec fn marker(selected: Option<int>, idx: int) -> Seq<char> {
    if selected == Some(idx) {
        ">"@
    } else {
        " "@
    }
}

/// The rendered line of one hull.
pub open spec fn hull_line(hull: HullClass, language: Language, selected: Option<int>, idx: int) -> Seq<char> {
    marker(selected, idx) + " "@ + hull.name.text_in(language) + " \u{2014} "@ + hull.description.text_in(
        language,
    ) + " (max items: "@ + int_decimal(hull.max_items as int) + ")"@
}

/// Lines of the rendered hull list.
pub open spec fn hull_list_lines(hulls: Seq<HullClass>, language: Language, selected: Option<int>) -> Seq<Seq<char>> {
    let body = Seq::new(hulls.len(), |i: int| hull_line(hulls[i], language, selected, i));
    if hulls.len() == 0 {
        seq!["Hull selection:"@, "No hulls available"@]
    } else {
        seq!["Hull selection:"@] + body
    }
}

/// Single-letter symbol of a module category.
pub open spec fn category_symbol(c: ModuleCategory) -> Seq<char> {
    match c {
        ModuleCategory::Engine => "E"@,
        ModuleCategory::Weapon => "W"@,
        ModuleCategory::Shield => "S"@,
        ModuleCategory::Scanner => "R"@,
        ModuleCategory::Special => "X"@,
    }
}

/// Rendered slot of one installed module.
pub open spec fn slot_text(m: InstalledModule) -> Seq<char> {
    category_symbol(m.category) + ":"@ + m.id@
}

/// Rows of at most four slots each, slots separated by ` | `.
pub open spec fn slot_rows(slots: Seq<Seq<char>>) -> Seq<Seq<char>> {
    Seq::new(
        ((slots.len() + 3) / 4) as nat,
        |r: int|
            join_with(
                slots.subrange(4 * r, if 4 * r + 4 <= slots.len() {
                    4 * r + 4
                } else {
                    slots.len() as int
                }),
                " | "@,
            ),
    )
}

/// Slot count of the first hull with identifier `id`, or zero when none has it.
pub open spec fn hull_capacity(hulls: Seq<HullClass>, id: Seq<char>) -> int {
    if has_id(hulls, id) {
        hulls[first_index(hulls, id)].max_items as int
    } else {
        0
    }
}

/// Lines of the rendered slot grid of `design` on the hulls `hulls`.
pub open spec fn slot_grid_lines(hulls: Seq<HullClass>, design: ShipDesign) -> Seq<Seq<char>> {
    let modules = design.modules@;
    let header = "Hull: "@ + design.hull_id@ + " (used "@ + int_decimal(modules.len() as int) + "/"@
        + int_decimal(hull_capacity(hulls, design.hull_id@)) + " slots)"@;
    let rows = slot_rows(Seq::new(modules.len(), |i: int| slot_text(modules[i])));
    if modules.len() == 0 {
        seq![header, "<no modules installed>"@]
    } else {
        seq![header] + rows
    }
}

/// Joining one more line onto at least one line.
proof fn lemma_join_push(lines: Seq<Seq<char>>, l: Seq<char>)
    requires
        lines.len() >= 1,
    ensures
        join_lines(lines.push(l)) == join_lines(lines) + seq!['\n'] + l,
{
    assert(lines.push(l).drop_last() =~= lines);
}

/// Joining one more part onto at least one part.
proof fn lemma_join_with_push(parts: Seq<Seq<char>>, sep: Seq<char>, l: Seq<char>)
    requires
        parts.len() >= 1,
    ensures
        join_with(parts.push(l), sep) == join_with(parts, sep) + sep + l,
{
    assert(parts.push(l).drop_last() =~= parts);
}

/// Tracks available hulls and the current selection.
#[derive(Debug)]
pub struct HullSelection {
    hulls: Vec<HullClass>,
    selected: Option<usize>,
}

impl HullSelection {
    /// A selection exists exactly when there are hulls, and it is in range.
    #[verifier::type_invariant]
    spec fn selection_in_range(self) -> bool {
        &&& (self.selected is Some <==> self.hulls@.len() > 0)
        &&& self.selected matches Some(i) ==> i < self.hulls@.len()
    }

    /// The hulls on offer.
    pub closed spec fn hulls_view(&self) -> Seq<HullClass> {
        self.hulls@
    }

    /// Index of the selected hull, if any.
    pub closed spec fn selection(&self) -> Option<int> {
        match self.selected {
            Some(i) => Some(i as int),
            None => None,
        }
    }

    /// The selection lies within the hull list, and exists exactly when the
    /// list is not empty.
    pub open spec fn selection_valid(&self) -> bool {
        &&& (self.selection() is Some <==> self.hulls_view().len() > 0)
        &&& self.selection() matches Some(i) ==> 0 <= i < self.hulls_view().len()
    }

    /// Build a selection list from loaded game data.
    pub fn from_game_data(data: &GameData) -> (s: Self)
        ensures
            s.hulls_view() == data.hull_classes@,
            s.selection() == (if data.hull_classes@.len() == 0 {
                None::<int>
            } else {
                Some(0int)
            }),
    {
        let src = data.hull_classes();
        let mut hulls: Vec<HullClass> = Vec::new();
        let mut i: usize = 0;
        while i < src.len()
            invariant
                i <= src@.len(),
                src@ == data.hull_classes@,
                hulls@ == src@.subrange(0, i as int),
            decreases src@.len() - i,
        {
            hulls.push(src[i].duplicate());
            proof {
                assert(hulls@ =~= src@.subrange(0, i + 1));
            }
            i = i + 1;
        }
        proof {
            assert(hulls@ =~= src@);
        }
        Self::from_hulls(hulls)
    }

    /// Build a selection list from provided hulls, selecting the first one.
    pub fn from_hulls(hulls: Vec<HullClass>) -> (s: Self)
        ensures
            s.hulls_view() == hulls@,
            s.selection_valid(),
            s.selection() == (if hulls@.len() == 0 {
                None::<int>
            } else {
                Some(0int)
            }),
    {
        let selected = if hulls.len() == 0 {
            None
        } else {
            Some(0)
        };
        HullSelection { hulls, selected }
    }

    /// Move the selection to the next hull (wrapping).
    pub fn next(&mut self)
        ensures
            final(self).hulls_view() == old(self).hulls_view(),
            final(self).selection_valid(),
            final(self).selection() == match old(self).selection() {
                Some(i) => Some(next_index(i, old(self).hulls_view().len() as int)),
                None => None::<int>,
            },
    {
        proof {
            use_type_invariant(&*self);
        }
        if let Some(idx) = self.selected {
            let len = self.hulls.len();
            assert(idx < len);
            let next = (idx + 1) % len;
            self.selected = Some(next);
        }
        proof {
            use_type_invariant(&*self);
        }
    }

    /// Move the selection to the previous hull (wrapping).
    pub fn prev(&mut self)
        ensures
            final(self).hulls_view() == old(self).hulls_view(),
            final(self).selection_valid(),
            final(self).selection() == match old(self).selection() {
                Some(i) => Some(prev_index(i, old(self).hulls_view().len() as int)),
                None => None::<int>,
            },
    {
        proof {
            use_type_invariant(&*self);
        }
        if let Some(idx) = self.selected {
            let len = self.hulls.len();
            let prev = if idx == 0 {
                len - 1
            } else {
                idx - 1
            };
            self.selected = Some(prev);
        }
        proof {
            use_type_invariant(&*self);
        }
    }

    /// Get the currently selected hull id, if any.
    pub fn selected_id(&self) -> (r: Option<&str>)
        ensures
            match self.selection() {
                Some(i) => r matches Some(s) && s@ == self.hulls_view()[i].id@,
                None => r is None,
            },
    {
        proof {
            use_type_invariant(self);
        }
        match self.selected {
            Some(idx) => Some(self.hulls[idx].id.as_str()),
            None => None,
        }
    }

    /// Render the hull list with the current selection highlighted.
    pub fn render(&self, language: Language) -> (r: String)
        ensures
            r@ == join_lines(hull_list_lines(self.hulls_view(), language, self.selection())),
    {
        proof {
            use_type_invariant(self);
        }
        let ghost sel = self.selection();
        let ghost body = Seq::new(
            self.hulls@.len(),
            |i: int| hull_line(self.hulls@[i], language, sel, i),
        );
        let mut out = String::from_str("Hull selection:");
        let mut idx: usize = 0;
        while idx < self.hulls.len()
            invariant
                idx <= self.hulls@.len(),
                sel == self.selection(),
                body == Seq::new(self.hulls@.len(), |i: int| hull_line(self.hulls@[i], language, sel, i)),
                out@ == join_lines(seq!["Hull selection:"@] + body.subrange(0, idx as int)),
            decreases self.hulls@.len() - idx,
        {
            let hull = &self.hulls[idx];
            let is_selected = match self.selected {
                Some(s) => s == idx,
                None => false,
            };
            let mut line = if is_selected {
                String::from_str(">")
            } else {
                String::from_str(" ")
            };
            line.append(" ");
            line.append(hull.name(language));
            line.append(" \u{2014} ");
            line.append(hull.description(language));
            line.append(" (max items: ");
            let max_text = i32_to_text(hull.max_items);
            line.append(max_text.as_str());
            line.append(")");
            proof {
                assert(line@ == hull_line(self.hulls@[idx as int], language, sel, idx as int));
                lemma_join_push(seq!["Hull selection:"@] + body.subrange(0, idx as int), line@);
                assert(seq!["Hull selection:"@] + body.subrange(0, idx + 1) =~= (seq!["Hull selection:"@]
                    + body.subrange(0, idx as int)).push(line@));
            }
            proof {
                reveal_strlit("\n");
            }
            out.append("\n");
            out.append(line.as_str());
            idx = idx + 1;
        }
        if self.hulls.len() == 0 {
            proof {
                lemma_join_push(seq!["Hull selection:"@], "No hulls available"@);
                assert(seq!["Hull selection:"@].push("No hulls available"@) =~= seq![
                    "Hull selection:"@,
                    "No hulls available"@,
                ]);
                assert(seq!["Hull selection:"@] + body.subrange(0, 0) =~= seq!["Hull selection:"@]);
            }
            proof {
                reveal_strlit("\n");
            }
            out.append("\n");
            out.append("No hulls available");
        } else {
            proof {
                assert(body.subrange(0, idx as int) =~= body);
            }
        }
        out
    }

    /// Render a simple slot grid for the provided design: a header with the
    /// used and available slot counts, then rows of four slots.
    pub fn render_slots(&self, design: &ShipDesign) -> (r: String)
        ensures
            r@ == join_lines(slot_grid_lines(self.hulls_view(), *design)),
    {
        let capacity = match crate::data::find_by_id(self.hulls.as_slice(), design.hull_id.as_str()) {
            Some(k) => {
                proof {
                    crate::data::lemma_first_with_id_unique(self.hulls@, design.hull_id@, k as int);
                }
                self.hulls[k].max_items
            },
            None => 0,
        };
        let ghost modules = design.modules@;
        let ghost slots = Seq::new(modules.len(), |i: int| slot_text(modules[i]));
        let ghost rows = slot_rows(slots);
        let mut out = String::from_str("Hull: ");
        out.append(design.hull_id.as_str());
        out.append(" (used ");
        let used_text = usize_to_text(design.modules.len());
        out.append(used_text.as_str());
        out.append("/");
        let cap_text = i32_to_text(capacity);
        out.append(cap_text.as_str());
        out.append(" slots)");
        let ghost header = out@;
        let mut row = String::new();
        let mut idx: usize = 0;
        while idx < design.modules.len()
            invariant
                idx <= modules.len(),
                modules == design.modules@,
                slots == Seq::new(modules.len(), |i: int| slot_text(modules[i])),
                rows == slot_rows(slots),
                out@ == join_lines(seq![header] + rows.subrange(0, idx as int / 4)),
                row@ == join_with(slots.subrange(4 * (idx as int / 4), idx as int), " | "@),
            decreases modules.len() - idx,
        {
            let module = &design.modules[idx];
            let mut slot = match module.category {
                ModuleCategory::Engine => String::from_str("E"),
                ModuleCategory::Weapon => String::from_str("W"),
                ModuleCategory::Shield => String::from_str("S"),
                ModuleCategory::Scanner => String::from_str("R"),
                ModuleCategory::Special => String::from_str("X"),
            };
            slot.append(":");
            slot.append(module.id.as_str());
            proof {
                assert(slot@ == slots[idx as int]);
                let start = 4 * (idx as int / 4);
                if idx as int % 4 == 0 {
                    assert(slots.subrange(start, idx + 1) =~= seq![slots[idx as int]]);
                } else {
                    lemma_join_with_push(slots.subrange(start, idx as int), " | "@, slots[idx as int]);
                    assert(slots.subrange(start, idx + 1) =~= slots.subrange(start, idx as int).push(
                        slots[idx as int],
                    ));
                }
            }
            if idx % 4 != 0 {
                row.append(" | ");
            } else {
                row = String::new();
            }
            row.append(slot.as_str());
            if (idx + 1) % 4 == 0 {
                proof {
                    let r = idx as int / 4;
                    assert(4 * r + 4 == idx + 1);
                    assert(rows[r] == join_with(slots.subrange(4 * r, 4 * r + 4), " | "@));
                    lemma_join_push(seq![header] + rows.subrange(0, r), rows[r]);
                    assert(seq![header] + rows.subrange(0, r + 1) =~= (seq![header] + rows.subrange(0, r)).push(rows[r]));
                }
                proof {
                    reveal_strlit("\n");
                }
                out.append("\n");
                out.append(row.as_str());
                row = String::new();
            }
            idx = idx + 1;
        }
        if idx % 4 != 0 {
            proof {
                let r = idx as int / 4;
                assert(rows.len() == r + 1);
                assert(rows[r] == join_with(slots.subrange(4 * r, modules.len() as int), " | "@));
                lemma_join_push(seq![header] + rows.subrange(0, r), rows[r]);
                assert(seq![header] + rows =~= (seq![header] + rows.subrange(0, r)).push(rows[r]));
            }
            proof {
                reveal_strlit("\n");
            }
            out.append("\n");
            out.append(row.as_str());
        } else {
            proof {
                assert(rows.len() == idx as int / 4);
                assert(rows.subrange(0, idx as int / 4) =~= rows);
            }
        }
        if design.modules.len() == 0 {
            proof {
                lemma_join_push(seq![header], "<no modules installed>"@);
                assert(seq![header].push("<no modules installed>"@) =~= seq![header, "<no modules installed>"@]);
                assert(seq![header] + rows =~= seq![header]);
            }
            proof {
                reveal_strlit("\n");
            }
            out.append("\n");
            out.append("<no modules installed>");
        }
        proof {
            assert(header == "Hull: "@ + design.hull_id@ + " (used "@ + int_decimal(modules.len() as int) + "/"@
                + int_decimal(hull_capacity(self.hulls@, design.hull_id@)) + " slots)"@);
        }
        out
    }
}

} // verus!
