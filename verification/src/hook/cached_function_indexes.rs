//! The functions that the hook watches for, by their places in the object
//! table.

use vstd::prelude::*;
use crate::game::Graph;

verus! {

#[derive(Debug)]
pub enum Error {
    /// No object of the table has this full name.
    NotFound(&'static str),
}

/// The places in the object table of the functions that the hook watches
/// for.
#[derive(Clone, Copy, Debug)]
pub struct CachedFunctionIndexes {
    pub post_render: u32,
    pub player_tick: u32,
    pub player_destroyed: u32,
}

/// The index of the first object with the full name `full_name`.
pub open spec fn index_of(graph: &Graph, full_name: &'static str) -> Result<u32, Error> {
    match graph.spec_node(graph.first_named(full_name@)) {
        Some(node) => Ok(node.spec_object().index),
        None => Err(Error::NotFound(full_name)),
    }
}

/// The indexes of the watched functions, or the error that names the first
/// of them that the table does not hold.
pub open spec fn cached_indexes(graph: &Graph) -> Result<CachedFunctionIndexes, Error> {
    match index_of(graph, "Function WillowGame.WillowGameViewportClient.PostRender") {
        Err(error) => Err(error),
        Ok(post_render) => match index_of(
            graph,
            "Function WillowGame.WillowPlayerController.PlayerTick",
        ) {
            Err(error) => Err(error),
            Ok(player_tick) => match index_of(
                graph,
                "Function WillowGame.WillowPlayerController.Destroyed",
            ) {
                Err(error) => Err(error),
                Ok(player_destroyed) => Ok(
                    CachedFunctionIndexes { post_render, player_tick, player_destroyed },
                ),
            },
        },
    }
}

/// The index of the first object with the full name `full_name`.
pub fn find(graph: &Graph, full_name: &'static str) -> (index: Result<u32, Error>)
    ensures
        index == index_of(graph, full_name),
{
    match graph.node(graph.find(full_name)) {
        Some(node) => Ok(node.object().index),
        None => Err(Error::NotFound(full_name)),
    }
}

impl CachedFunctionIndexes {
    /// Looks the watched functions up by their full names.
    pub fn new(graph: &Graph) -> (indexes: Result<CachedFunctionIndexes, Error>)
        ensures
            indexes == cached_indexes(graph),
    {
        let post_render = match find(
            graph,
            "Function WillowGame.WillowGameViewportClient.PostRender",
        ) {
            Ok(index) => index,
            Err(error) => {
                return Err(error);
            },
        };
        let player_tick = match find(
            graph,
            "Function WillowGame.WillowPlayerController.PlayerTick",
        ) {
            Ok(index) => index,
            Err(error) => {
                return Err(error);
            },
        };
        let player_destroyed = match find(
            graph,
            "Function WillowGame.WillowPlayerController.Destroyed",
        ) {
            Ok(index) => index,
            Err(error) => {
                return Err(error);
            },
        };
        Ok(CachedFunctionIndexes { post_render, player_tick, player_destroyed })
    }
}

} // verus!
