pub mod agent;
