pub mod clickup;
