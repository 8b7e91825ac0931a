use vstd::prelude::*;
use crate::rate_limit::{RateLimiter, Window};

verus! {

/// An image-generation command as its contracts see it.
pub struct CommandView {
    pub names: Seq<Seq<char>>,
    pub description: Seq<char>,
    pub model: Seq<char>,
    pub size: u32,
}

/// The names in `names`, each by its view.
pub open spec fn name_views(names: Seq<&'static str>) -> Seq<Seq<char>> {
    Seq::new(names.len(), |i: int| names[i]@)
}

/// A command that has images generated by one model of Stable Horde.
pub struct StableHorde {
    command_names: &'static [&'static str],
    command_description: &'static str,
    model: &'static str,
    size: u32,
}

impl View for StableHorde {
    type V = CommandView;

    closed spec fn view(&self) -> CommandView {
        CommandView {
            names: name_views(self.command_names@),
            description: self.command_description@,
            model: self.model@,
            size: self.size,
        }
    }
}

impl StableHorde {
    pub fn stable_diffusion_2() -> (command: Self)
        ensures
            command@ == (CommandView {
                names: seq!["stable_diffusion_2"@, "sd2"@],
                description: "generate images using Stable Diffusion 2.0"@,
                model: "stable_diffusion_2.0"@,
                size: 768,
            }),
    {
        let command = Self {
            command_names: &["stable_diffusion_2", "sd2"],
            command_description: "generate images using Stable Diffusion 2.0",
            model: "stable_diffusion_2.0",
            size: 768,
        };
        assert(command@.names =~= seq!["stable_diffusion_2"@, "sd2"@]);
        command
    }

    pub fn stable_diffusion() -> (command: Self)
        ensures
            command@ == (CommandView {
                names: seq!["stable_diffusion"@, "sd"@],
                description: "generate images using Stable Diffusion"@,
                model: "stable_diffusion"@,
                size: 512,
            }),
    {
        let command = Self {
            command_names: &["stable_diffusion", "sd"],
            command_description: "generate images using Stable Diffusion",
            model: "stable_diffusion",
            size: 512,
        };
        assert(command@.names =~= seq!["stable_diffusion"@, "sd"@]);
        command
    }

    pub fn waifu_diffusion() -> (command: Self)
        ensures
            command@ == (CommandView {
                names: seq!["waifu_diffusion"@, "wd"@],
                description: "generate images using Waifu Diffusion"@,
                model: "waifu_diffusion"@,
                size: 512,
            }),
    {
        let command = Self {
            command_names: &["waifu_diffusion", "wd"],
            command_description: "generate images using Waifu Diffusion",
            model: "waifu_diffusion",
            size: 512,
        };
        assert(command@.names =~= seq!["waifu_diffusion"@, "wd"@]);
        command
    }

    pub fn furry_diffusion() -> (command: Self)
        ensures
            command@ == (CommandView {
                names: seq!["furry_diffusion"@, "fd"@],
                description: "generate images using Furry Epoch"@,
                model: "Furry Epoch"@,
                size: 512,
            }),
    {
        let command = Self {
            command_names: &["furry_diffusion", "fd"],
            command_description: "generate images using Furry Epoch",
            model: "Furry Epoch",
            size: 512,
        };
        assert(command@.names =~= seq!["furry_diffusion"@, "fd"@]);
        command
    }

    pub fn command_names(&self) -> (names: &[&'static str])
        ensures
            name_views(names@) == self@.names,
    {
        self.command_names
    }

    pub fn description(&self) -> (description: Option<&'static str>)
        ensures
            description is Some,
            description->0@ == self@.description,
    {
        Some(self.command_description)
    }

    /// The model that the remote service is asked for.
    pub fn model(&self) -> (model: &'static str)
        ensures
            model@ == self@.model,
    {
        self.model
    }

    /// Edge length of the images asked for, in pixels.
    pub fn size(&self) -> (size: u32)
        ensures
            size == self@.size,
    {
        self.size
    }

    /// The limit on a user's requests: three in three hundred seconds.
    pub fn rate_limit(&self) -> (limiter: RateLimiter)
        ensures
            limiter@.limit == 3,
            limiter@.window == 300,
            limiter@.windows == Map::<i64, Window>::empty(),
    {
        RateLimiter::new(3, 300)
    }
}

} // verus!
