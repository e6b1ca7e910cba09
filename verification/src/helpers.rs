//! Collaborators around the core: seed data for the point cloud.

pub mod test_helper;
