//! Which kind of process this is, by the `type` switch of its command line.
use vstd::prelude::*;
use crate::text::same_text;

verus! {

/// The name of the switch that says which kind of process to run.
pub const PROCESS_TYPE: &'static str = "type";

/// The value of the switch in a renderer process.
pub const RENDERER_PROCESS: &'static str = "renderer";

/// The value of the switch in a zygote process.
pub const ZYGOTE_PROCESS: &'static str = "zygote";

/// The kinds of process.
#[derive(Clone, Copy, Debug, PartialEq, Eq, Structural)]
pub enum ProcessType {
    /// The coordinator process: the one started without the switch.
    Browser,
    /// A process that hosts isolated contexts.
    Renderer,
    /// The process that others are forked from.
    Zygote,
    /// Any other helper process.
    Other,
}

impl ProcessType {
    /// The kind of process that the value of the `type` switch stands for;
    /// `None` stands for a command line without the switch.
    pub open spec fn of_switch(value: Option<Seq<char>>) -> ProcessType {
        match value {
            None => ProcessType::Browser,
            Some(v) => if v == RENDERER_PROCESS@ {
                ProcessType::Renderer
            } else if v == ZYGOTE_PROCESS@ {
                ProcessType::Zygote
            } else {
                ProcessType::Other
            },
        }
    }

    /// The kind of process that runs with the given value of the `type`
    /// switch; `None` where the command line has no such switch.
    pub fn from_switch(value: Option<&str>) -> (r: ProcessType)
        ensures
            r == ProcessType::of_switch(
                match value {
                    Some(v) => Some(v@),
                    None => None,
                },
            ),
    {
        match value {
            None => ProcessType::Browser,
            Some(v) => {
                if same_text(v, RENDERER_PROCESS) {
                    ProcessType::Renderer
                } else if same_text(v, ZYGOTE_PROCESS) {
                    ProcessType::Zygote
                } else {
                    ProcessType::Other
                }
            },
        }
    }
}

impl<'a> From<Option<&'a str>> for ProcessType {
    /// The kind of process that runs with the given value of the `type`
    /// switch; `None` where the command line has no such switch.
    fn from(value: Option<&'a str>) -> (r: ProcessType) {
        ProcessType::from_switch(value)
    }
}

impl<'a> vstd::std_specs::convert::FromSpecImpl<Option<&'a str>> for ProcessType {
    open spec fn obeys_from_spec() -> bool {
        true
    }

    open spec fn from_spec(value: Option<&'a str>) -> ProcessType {
        ProcessType::of_switch(
            match value {
                Some(v) => Some(v@),
                None => None,
            },
        )
    }
}

} // verus!
