use crate::text::clone_string;
use vstd::prelude::*;
use vstd::string::StringExecFns;

verus! {

/// The result of a log event.
#[derive(Debug)]
pub enum LogItemStatus {
    Pending,
    Failed(Option<String>),
}

impl LogItemStatus {
    /// Whether the status no longer waits for the result of an operation.
    pub fn is_resolved(&self) -> (r: bool)
        ensures
            r == (*self is Failed),
    {
        match self {
            LogItemStatus::Failed(_) => true,
            LogItemStatus::Pending => false,
        }
    }
}

/// The lines a log entry renders to: the description, then — once the
/// status is resolved — the status and the error detail.
pub open spec fn log_item_texts(desc: Seq<char>, status: LogItemStatus) -> Seq<Seq<char>> {
    match status {
        LogItemStatus::Pending => seq![desc + "...\n"@],
        LogItemStatus::Failed(None) => seq![desc + "... "@, "failed\n"@],
        LogItemStatus::Failed(Some(err)) => seq![
            desc + "... "@,
            "failed\n"@,
            ".. "@ + err@ + "\n"@,
        ],
    }
}

/// A log entry: its pre-rendered text lines.
#[derive(Debug)]
pub struct LogItem {
    texts: Vec<String>,
}

impl View for LogItem {
    type V = Seq<Seq<char>>;

    closed spec fn view(&self) -> Seq<Seq<char>> {
        self.texts@.map_values(|s: String| s@)
    }
}

impl LogItem {
    /// A log entry with the given description and status.
    pub fn with_status(desc: String, status: LogItemStatus) -> (r: LogItem)
        ensures
            r@ == log_item_texts(desc@, status),
    {
        let ghost desc_view = desc@;
        let ghost status0 = status;
        let mut texts: Vec<String> = Vec::new();
        match status {
            LogItemStatus::Pending => {
                texts.push(desc.concat("...\n"));
            },
            LogItemStatus::Failed(err) => {
                texts.push(desc.concat("... "));
                proof {
                    reveal_strlit("failed\n");
                }
                texts.push(String::from_str("failed\n"));
                match err {
                    Some(err_text) => {
                        let detail = String::from_str(".. ").concat(err_text.as_str()).concat(
                            "\n",
                        );
                        texts.push(detail);
                    },
                    None => {},
                }
            },
        }
        let r = LogItem { texts };
        proof {
            assert(r@ =~= log_item_texts(desc_view, status0));
        }
        r
    }

    /// A log entry still waiting for its operation.
    pub fn pending(desc: String) -> (r: LogItem)
        ensures
            r@ == log_item_texts(desc@, LogItemStatus::Pending),
    {
        LogItem::with_status(desc, LogItemStatus::Pending)
    }

    /// A log entry for a failed operation.
    pub fn failed(desc: String, err: Option<String>) -> (r: LogItem)
        ensures
            r@ == log_item_texts(desc@, LogItemStatus::Failed(err)),
    {
        LogItem::with_status(desc, LogItemStatus::Failed(err))
    }

    /// The entry's text lines.
    pub fn text_items(&self) -> (r: &Vec<String>)
        ensures
            r@.map_values(|s: String| s@) == self@,
    {
        &self.texts
    }

    /// How many text lines the entry renders to.
    pub fn len(&self) -> (r: usize)
        ensures
            r == self@.len(),
    {
        self.texts.len()
    }
}

/// A scrolling log of messages with their status, trimmed to a maximum
/// number of entries.
#[derive(Debug)]
pub struct StatusLog {
    items: Vec<LogItem>,
    max_items: u16,
}

impl StatusLog {
    /// The stored entries, oldest first.
    pub closed spec fn spec_items(self) -> Seq<LogItem> {
        self.items@
    }

    /// The current entry limit.
    pub closed spec fn spec_max_items(self) -> u16 {
        self.max_items
    }

    pub fn new() -> (r: StatusLog)
        ensures
            r.spec_items().len() == 0,
            r.spec_max_items() == 1,
    {
        StatusLog { items: Vec::new(), max_items: 1 }
    }

    /// Push an entry to the end of the log.
    pub fn push(&mut self, item: LogItem)
        ensures
            final(self).spec_items() == old(self).spec_items().push(item),
            final(self).spec_max_items() == old(self).spec_max_items(),
    {
        self.items.push(item);
    }

    /// Remove the oldest entry, if there is one.
    pub fn pop_front(&mut self)
        ensures
            old(self).spec_items().len() > 0 ==> final(self).spec_items() == old(
                self,
            ).spec_items().drop_first(),
            old(self).spec_items().len() == 0 ==> final(self).spec_items() == old(
                self,
            ).spec_items(),
            final(self).spec_max_items() == old(self).spec_max_items(),
    {
        if self.items.len() > 0 {
            self.items.remove(0);
            proof {
                assert(self.items@ =~= old(self).items@.drop_first());
            }
        }
    }

    /// Trim the log so all entries fit within `height` rows, two of which a
    /// border takes up. The oldest entries leave first.
    pub fn adjust_to_size(&mut self, height: u16, with_border: bool)
        ensures
            final(self).spec_max_items() == (if with_border {
                (if height >= 2 {
                    (height - 2) as u16
                } else {
                    0u16
                })
            } else {
                height
            }),
            final(self).spec_items().len() <= final(self).spec_max_items(),
            final(self).spec_items() == old(self).spec_items().subrange(
                old(self).spec_items().len() - final(self).spec_items().len(),
                old(self).spec_items().len() as int,
            ),
    {
        self.max_items = if with_border {
            if height >= 2 {
                height - 2
            } else {
                0
            }
        } else {
            height
        };
        let ghost items0 = self.items@;
        let ghost target = self.max_items;
        proof {
            assert(items0.subrange(0, items0.len() as int) =~= items0);
        }
        while self.items.len() > self.max_items as usize
            invariant
                self.max_items == target,
                self.items@.len() <= items0.len(),
                self.items@ == items0.subrange(
                    items0.len() - self.items@.len(),
                    items0.len() as int,
                ),
            decreases self.items@.len(),
        {
            let ghost prev = self.items@;
            self.items.remove(0);
            proof {
                assert(self.items@ =~= prev.drop_first());
                assert forall|ii: int| 0 <= ii < self.items@.len() implies self.items@[ii]
                    == items0[items0.len() - self.items@.len() + ii] by {
                    assert(self.items@[ii] == prev[ii + 1]);
                    assert(prev[ii + 1] == items0[items0.len() - prev.len() + ii + 1]);
                }
                assert(self.items@ =~= items0.subrange(
                    items0.len() - self.items@.len(),
                    items0.len() as int,
                ));
            }
        }
        proof {
            assert(self.items@ == items0.subrange(
                items0.len() - self.items@.len(),
                items0.len() as int,
            ));
        }
    }

    /// How many entries the log holds.
    pub fn len(&self) -> (r: usize)
        ensures
            r == self.spec_items().len(),
    {
        self.items.len()
    }

}
} // verus!
