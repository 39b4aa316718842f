//! Car driving: nitro, drive inputs and how outputs become wheel pushes.
pub mod car_controller;
